use game_theory::access::only_role;
use game_theory::data::{accounts_distinct, contains_account, DEFAULT_ROUND_TIMEOUT};
use game_theory::public_good::magnitude_of;
use game_theory::rock_paper_scissors::refund_revealers;
use game_theory::round::{copy_of, find_entry, sum_of};
use game_theory::types::bytes_equal;
use game_theory::{commit, AccessControlError, AccountId, GameError, GameRound, RoundStatus};

fn account(n: u8) -> AccountId {
    AccountId { bytes: [n; 32] }
}

#[test]
fn bytes_are_compared_one_by_one() {
    let a = [7u8; 32];
    let mut b = [7u8; 32];
    assert!(bytes_equal(&a, &b));
    b[0] = 8;
    assert!(!bytes_equal(&a, &b));
    b[0] = 7;
    b[31] = 0;
    assert!(!bytes_equal(&a, &b));
}

#[test]
fn hashes_are_equal_when_their_bytes_are() {
    let a = game_theory::types::Hash { bytes: [1; 32] };
    let mut b = a;
    assert_eq!(a, b);
    b.bytes[16] = 2;
    assert_ne!(a, b);
}

#[test]
fn only_the_role_goes_on() {
    assert_eq!(only_role(true), Ok(()));
    assert_eq!(
        only_role(false),
        Err(GameError::AccessControlError(AccessControlError::MissingRole))
    );
}

#[test]
fn accounts_are_looked_up() {
    let accounts = vec![account(1), account(2), account(3)];
    assert!(contains_account(&accounts, account(1)));
    assert!(contains_account(&accounts, account(3)));
    assert!(!contains_account(&accounts, account(4)));
    assert!(!contains_account(&vec![], account(1)));
    assert!(accounts_distinct(&accounts));
    assert!(accounts_distinct(&vec![]));
    assert!(!accounts_distinct(&vec![account(1), account(2), account(1)]));
    assert!(!accounts_distinct(&vec![account(2), account(2)]));
}

#[test]
fn entries_are_looked_up() {
    let entries = vec![(account(1), 10u8), (account(2), 20), (account(1), 30)];
    assert_eq!(find_entry(&entries, account(1)), Some(0));
    assert_eq!(find_entry(&entries, account(2)), Some(1));
    assert_eq!(find_entry(&entries, account(3)), None);
    assert_eq!(find_entry::<u8>(&vec![], account(3)), None);
    assert_eq!(copy_of(&entries), entries);
    assert_eq!(copy_of::<u8>(&vec![]), vec![]);
}

#[test]
fn amounts_are_added_up() {
    assert_eq!(sum_of(&vec![]), Some(0));
    assert_eq!(sum_of(&vec![(account(1), 4), (account(2), 6), (account(1), 1)]), Some(11));
    assert_eq!(sum_of(&vec![(account(1), u128::MAX)]), Some(u128::MAX));
    assert_eq!(sum_of(&vec![(account(1), u128::MAX), (account(2), 0)]), Some(u128::MAX));
    assert_eq!(sum_of(&vec![(account(1), u128::MAX), (account(2), 1)]), None);
}

#[test]
fn the_size_of_a_multiplier() {
    assert_eq!(magnitude_of(0), 0);
    assert_eq!(magnitude_of(20), 20);
    assert_eq!(magnitude_of(-20), 20);
    assert_eq!(magnitude_of(i8::MAX), 127);
    assert_eq!(magnitude_of(i8::MIN), 128);
}

#[test]
fn the_default_timeout() {
    assert_eq!(DEFAULT_ROUND_TIMEOUT, 10);
}

#[test]
fn a_round_tells_who_committed_and_revealed() {
    let round = GameRound {
        id: 1,
        status: RoundStatus::OnGoing,
        player_commits: vec![(account(1), commit(2, 9)), (account(2), commit(0, 8))],
        player_reveals: vec![(account(2), (0, 8))],
        player_contributions: vec![(account(1), 4), (account(2), 6)],
        total_contribution: 10,
        total_reward: 0,
    };
    assert!(round.has_committed(account(1)));
    assert!(round.has_committed(account(2)));
    assert!(!round.has_committed(account(3)));
    assert!(round.has_revealed(account(2)));
    assert!(!round.has_revealed(account(1)));
    assert_eq!(round.duplicate(), round);
    assert_eq!(round.check_reveal(account(1), (2, 9)), Ok(()));
    assert_eq!(round.check_reveal(account(1), (2, 8)), Err(GameError::InvalidReveal));
    assert_eq!(round.check_reveal(account(2), (0, 8)), Err(GameError::InvalidReveal));
    assert_eq!(round.check_reveal(account(3), (0, 8)), Err(GameError::CommitmentNotFound));
    assert_eq!(refund_revealers(&round), (vec![(account(2), 6)], 6));
}
