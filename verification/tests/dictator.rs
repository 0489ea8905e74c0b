use game_theory::dictator::pick_index;
use game_theory::{
    commit, AccessControlError, AccountId, Dictator, GameConfigs, GameError, GameStatus,
    RandomReadErr, RoundStatus,
};

fn account(n: u8) -> AccountId {
    AccountId { bytes: [n; 32] }
}

fn alice() -> AccountId {
    account(1)
}

fn bob() -> AccountId {
    account(2)
}

fn creator() -> AccountId {
    account(9)
}

fn random(first: [u8; 4]) -> [u8; 32] {
    let mut bytes = [7u8; 32];
    bytes[..4].copy_from_slice(&first);
    bytes
}

/// Alice and Bob have joined; the seed is set.
fn ready() -> Dictator {
    let mut game = Dictator::default(creator());
    assert_eq!(game.join(alice(), alice(), 0), Ok(1));
    assert_eq!(game.join(bob(), bob(), 0), Ok(2));
    assert_eq!(game.set_random_seed(true, [5; 32]), Ok([5; 32]));
    game
}

/// The game has started with Bob as dictator, and both have committed.
fn committed() -> Dictator {
    let mut game = ready();
    assert_eq!(game.start_game(1_000_000, Ok(random([3, 0, 0, 0])), 1), Ok(()));
    assert_eq!(game.dictator, Some(bob()));
    assert_eq!(game.play_round(alice(), commit(1, 11), 0), Ok(false));
    assert_eq!(game.play_round(bob(), commit(400_000, 22), 0), Ok(true));
    game
}

#[test]
fn dictator_default_works() {
    let dictator = Dictator::default(creator());
    assert_eq!(dictator.get_players(), vec![]);
    assert_eq!(dictator.get_current_round(), None);
    assert_eq!(dictator.get_status(), GameStatus::Ready);
    assert_eq!(dictator.seed, None);
    assert_eq!(dictator.dictator, None);
    assert_eq!(dictator.current_prize, None);
    assert_eq!(
        dictator.get_configs(),
        GameConfigs {
            max_players: 2,
            min_players: 2,
            min_round_contribution: Some(100_000),
            max_round_contribution: Some(1_000_000),
            round_reward_multiplier: None,
            post_round_actions: false,
            round_timeout: None,
            max_rounds: Some(1),
            join_fee: None,
            is_rounds_based: false,
        }
    );
}

#[test]
fn the_seed_is_set_by_the_creator_alone() {
    let mut game = Dictator::default(creator());
    assert_eq!(
        game.set_random_seed(false, [5; 32]),
        Err(GameError::AccessControlError(AccessControlError::MissingRole))
    );
    assert_eq!(game.seed, None);
    assert_eq!(game.set_random_seed(true, [5; 32]), Ok([5; 32]));
    assert_eq!(game.seed, Some([5; 32]));
}

#[test]
fn the_draw_picks_the_dictator() {
    assert_eq!(pick_index(&random([0, 0, 0, 0]), 2), 0);
    assert_eq!(pick_index(&random([3, 0, 0, 0]), 2), 1);
    // 1 + 2 * 256 = 513
    assert_eq!(pick_index(&random([1, 2, 0, 0]), 10), 3);
    // 0x04030201 = 67305985
    assert_eq!(pick_index(&random([1, 2, 3, 4]), 1000), 985);
    assert_eq!(pick_index(&random([255, 255, 255, 255]), 7), (u32::MAX % 7) as usize);
    assert_eq!(pick_index(&random([9, 9, 9, 9]), 1), 0);
}

#[test]
fn start_game_errors_in_order() {
    let mut game = Dictator::default(creator());
    let drawn = Ok(random([0, 0, 0, 0]));
    assert_eq!(game.start_game(1_000_000, drawn, 1), Err(GameError::NotEnoughPlayers));
    game.join(alice(), alice(), 0).unwrap();
    game.join(bob(), bob(), 0).unwrap();
    let before = game.clone();
    assert_eq!(game.start_game(100_000, drawn, 1), Err(GameError::EndownmentNotEnough));
    assert_eq!(game.start_game(1_000_000, drawn, 1), Err(GameError::SeedNotSet));
    game.set_random_seed(true, [5; 32]).unwrap();
    assert_eq!(
        game.start_game(1_000_000, Err(RandomReadErr::FailGetRandomSource), 1),
        Err(GameError::SeedNotSet)
    );
    assert_eq!(game.get_status(), GameStatus::Ready);
    assert_eq!(game.get_current_round(), None);
    assert_eq!(game.data, before.data);
    assert_eq!(game.dictator, None);

    assert_eq!(game.start_game(100_001, drawn, 4), Ok(()));
    assert_eq!(game.dictator, Some(alice()));
    assert_eq!(game.get_status(), GameStatus::OnGoing);
    assert_eq!(game.get_current_round().unwrap().id, 1);
    assert_eq!(game.data.round_opened_at, 4);
    assert_eq!(game.start_game(1_000_000, drawn, 1), Err(GameError::InvalidGameState));
}

#[test]
fn start_game_needs_a_least_contribution_and_a_player() {
    let mut configs = Dictator::default(creator()).get_configs();
    configs.min_round_contribution = None;
    let mut game = Dictator::new(configs, creator());
    game.join(alice(), alice(), 0).unwrap();
    game.join(bob(), bob(), 0).unwrap();
    game.set_random_seed(true, [5; 32]).unwrap();
    assert_eq!(
        game.start_game(1_000_000, Ok(random([0, 0, 0, 0])), 1),
        Err(GameError::InvalidRoundContribution)
    );

    // without a player: the seed and the answer are looked at first
    let mut configs = Dictator::default(creator()).get_configs();
    configs.min_players = 0;
    let mut game = Dictator::new(configs, creator());
    assert_eq!(
        game.start_game(1_000_000, Ok(random([0, 0, 0, 0])), 1),
        Err(GameError::SeedNotSet)
    );
    assert_eq!(game.start_game(100_000, Ok(random([0, 0, 0, 0])), 1), Err(GameError::EndownmentNotEnough));
    game.set_random_seed(true, [5; 32]).unwrap();
    assert_eq!(
        game.start_game(1_000_000, Err(RandomReadErr::FailGetRandomSource), 1),
        Err(GameError::SeedNotSet)
    );
    let before = game.clone();
    assert_eq!(
        game.start_game(1_000_000, Ok(random([0, 0, 0, 0])), 1),
        Err(GameError::NotEnoughPlayers)
    );
    assert_eq!(game, before);
    assert_eq!(game.get_status(), GameStatus::Ready);
    assert_eq!(game.get_current_round(), None);
    assert_eq!(game.data.next_round_id, 1);
    assert_eq!(game.dictator, None);
}

#[test]
fn the_seed_to_ask_with() {
    let mut game = Dictator::default(creator());
    assert_eq!(game.start_seed(1_000_000), Err(GameError::NotEnoughPlayers));
    game.join(alice(), alice(), 0).unwrap();
    game.join(bob(), bob(), 0).unwrap();
    assert_eq!(game.start_seed(100_000), Err(GameError::EndownmentNotEnough));
    assert_eq!(game.start_seed(100_001), Err(GameError::SeedNotSet));
    game.set_random_seed(true, [5; 32]).unwrap();
    assert_eq!(game.start_seed(100_001), Ok([5; 32]));
    let before = game.clone();
    assert_eq!(game.start_seed(100_001), Ok([5; 32]));
    assert_eq!(game, before);
    game.start_game(100_001, Ok(random([0, 0, 0, 0])), 1).unwrap();
    assert_eq!(game.start_seed(100_001), Err(GameError::InvalidGameState));

    let mut configs = Dictator::default(creator()).get_configs();
    configs.min_round_contribution = None;
    let mut game = Dictator::new(configs, creator());
    game.join(alice(), alice(), 0).unwrap();
    game.join(bob(), bob(), 0).unwrap();
    assert_eq!(game.start_seed(100_001), Err(GameError::InvalidRoundContribution));
}

#[test]
fn the_dictator_sets_the_prize_of_each_player() {
    let mut game = committed();
    assert_eq!(game.reveal_round(alice(), (1, 11), 1_000_000), Ok(()));
    assert_eq!(game.current_prize, None);
    assert_eq!(game.complete_round(2), Err(GameError::NotAllPlayersRevealed));
    assert_eq!(game.reveal_round(bob(), (400_000, 22), 1_000_000), Ok(()));
    assert_eq!(game.current_prize, Some(400_000));

    let settlement = game.complete_round(2).unwrap();
    assert_eq!(settlement.payouts, vec![(alice(), 400_000), (bob(), 400_000)]);
    assert_eq!(settlement.round_id, 1);
    assert_eq!(settlement.total_contribution, 0);
    assert!(settlement.game_ended);
    assert_eq!(game.get_status(), GameStatus::Ended);
    assert_eq!(game.get_current_round(), None);
    assert_eq!(game.current_prize, None);
    assert_eq!(game.data.rounds[0].status, RoundStatus::Ended);
    assert_eq!(game.data.rounds[0].total_reward, 800_000);
}

#[test]
fn the_prizes_must_be_covered() {
    let mut game = ready();
    game.start_game(1_000_000, Ok(random([3, 0, 0, 0])), 1).unwrap();
    game.play_round(bob(), commit(500_001, 22), 0).unwrap();
    game.play_round(alice(), commit(500_001, 22), 0).unwrap();
    let before = game.clone();
    assert_eq!(game.reveal_round(bob(), (500_001, 22), 1_000_001), Err(GameError::InvalidReveal));
    assert_eq!(game, before);
    // who is not the dictator may reveal any value
    assert_eq!(game.reveal_round(alice(), (500_001, 22), 0), Ok(()));
    assert_eq!(game.current_prize, None);
    assert_eq!(game.reveal_round(bob(), (500_001, 22), 1_000_002), Ok(()));
    assert_eq!(game.current_prize, Some(500_001));
}

#[test]
fn a_prize_beyond_all_numbers_is_not_covered() {
    let mut game = ready();
    game.start_game(1_000_000, Ok(random([3, 0, 0, 0])), 1).unwrap();
    game.play_round(bob(), commit(u128::MAX, 22), 0).unwrap();
    assert_eq!(game.reveal_round(bob(), (u128::MAX, 22), u128::MAX), Err(GameError::InvalidReveal));
}

#[test]
fn dictator_reveal_errors() {
    let mut game = ready();
    assert_eq!(game.reveal_round(alice(), (1, 11), 1_000_000), Err(GameError::NoCurrentRound));
    assert_eq!(game.play_round(alice(), commit(1, 11), 0), Err(GameError::InvalidGameState));
    let mut game = committed();
    assert_eq!(game.reveal_round(creator(), (1, 11), 1_000_000), Err(GameError::CommitmentNotFound));
    assert_eq!(game.reveal_round(alice(), (2, 11), 1_000_000), Err(GameError::InvalidReveal));
    assert_eq!(game.play_round(alice(), commit(1, 11), 0), Err(GameError::PlayerAlreadyCommitted));
}

#[test]
fn a_round_without_a_prize_cannot_be_resolved() {
    let mut configs = Dictator::default(creator()).get_configs();
    configs.max_players = 3;
    configs.min_players = 1;
    let mut game = Dictator::new(configs, creator());
    game.join(alice(), alice(), 0).unwrap();
    game.set_random_seed(true, [5; 32]).unwrap();
    game.start_game(1_000_000, Ok(random([0, 0, 0, 0])), 1).unwrap();
    assert_eq!(game.dictator, Some(alice()));
    // somebody who is not a player commits and reveals
    game.play_round(bob(), commit(1, 11), 0).unwrap();
    game.reveal_round(bob(), (1, 11), 1_000_000).unwrap();
    let before = game.clone();
    assert_eq!(game.complete_round(2), Err(GameError::EndowmentNotSet));
    assert_eq!(game, before);
}

#[test]
fn prizes_that_cannot_be_added_up_fail() {
    let mut configs = Dictator::default(creator()).get_configs();
    configs.max_players = 3;
    configs.min_players = 1;
    let mut game = Dictator::new(configs, creator());
    game.join(alice(), alice(), 0).unwrap();
    game.set_random_seed(true, [5; 32]).unwrap();
    game.start_game(u128::MAX, Ok(random([0, 0, 0, 0])), 1).unwrap();
    game.play_round(alice(), commit(u128::MAX, 11), 0).unwrap();
    game.play_round(bob(), commit(0, 11), 0).unwrap();
    game.reveal_round(alice(), (u128::MAX, 11), u128::MAX).unwrap();
    game.reveal_round(bob(), (0, 11), u128::MAX).unwrap();
    game.join(bob(), bob(), 0).unwrap();
    let before = game.clone();
    assert_eq!(game.complete_round(2), Err(GameError::FailedToGetWinners));
    assert_eq!(game, before);
}

#[test]
fn dictator_end_game() {
    let mut configs = Dictator::default(creator()).get_configs();
    configs.max_rounds = None;
    let mut game = Dictator::new(configs, creator());
    game.join(alice(), alice(), 0).unwrap();
    game.join(bob(), bob(), 0).unwrap();
    game.set_random_seed(true, [5; 32]).unwrap();
    game.start_game(1_000_000, Ok(random([2, 0, 0, 0])), 1).unwrap();
    assert_eq!(game.dictator, Some(alice()));
    assert_eq!(game.end_game(), Err(GameError::InvalidRoundState));
    game.play_round(alice(), commit(10, 1), 0).unwrap();
    game.play_round(bob(), commit(0, 2), 0).unwrap();
    game.reveal_round(alice(), (10, 1), 20).unwrap();
    game.reveal_round(bob(), (0, 2), 20).unwrap();
    let settlement = game.complete_round(5).unwrap();
    assert_eq!(settlement.payouts, vec![(alice(), 10), (bob(), 10)]);
    assert!(!settlement.game_ended);
    assert_eq!(game.current_prize, None);
    assert_eq!(game.get_current_round().unwrap().id, 2);
    assert_eq!(game.end_game(), Ok(creator()));
    assert_eq!(game.get_status(), GameStatus::Ended);
}

#[test]
fn dictator_admin_operations() {
    let mut game = Dictator::default(creator());
    assert_eq!(
        game.add_player_to_game(false, alice(), 0, false),
        Err(GameError::AccessControlError(AccessControlError::MissingRole))
    );
    assert_eq!(game.add_player_to_game(true, alice(), 0, false), Ok(1));
    assert_eq!(game.add_player_to_game(true, bob(), 3, false), Err(GameError::FailedToAddPlayer));
    assert_eq!(game.add_player_to_game(true, bob(), 3, true), Ok(2));
    assert_eq!(game.add_player_to_game(true, creator(), 0, true), Err(GameError::MaxPlayersReached));
    game.set_random_seed(true, [5; 32]).unwrap();
    game.start_game(1_000_000, Ok(random([3, 0, 0, 0])), 1).unwrap();

    assert_eq!(
        game.play_round_as_player(false, alice(), commit(1, 11), 0),
        Err(GameError::AccessControlError(AccessControlError::MissingRole))
    );
    assert_eq!(game.play_round_as_player(true, alice(), commit(1, 11), 0), Ok(false));
    assert_eq!(game.play_round_as_player(true, bob(), commit(9, 22), 0), Ok(true));
    assert_eq!(
        game.reveal_round_as_player(false, bob(), (9, 22), 100),
        Err(GameError::AccessControlError(AccessControlError::MissingRole))
    );
    assert_eq!(game.reveal_round_as_player(true, bob(), (9, 22), 17), Err(GameError::InvalidReveal));
    assert_eq!(game.reveal_round_as_player(true, bob(), (9, 22), 18), Ok(()));
    assert_eq!(game.current_prize, Some(9));
}

#[test]
fn dictator_fund_contract() {
    let mut game = Dictator::default(creator());
    assert_eq!(
        game.fund_contract(false, 1_000_000),
        Err(GameError::AccessControlError(AccessControlError::MissingRole))
    );
    assert_eq!(game.fund_contract(true, 100_000), Err(GameError::EndownmentNotEnough));
    assert_eq!(game.fund_contract(true, 100_001), Ok(()));
    let mut configs = game.get_configs();
    configs.min_round_contribution = None;
    configs.max_round_contribution = None;
    let mut game = Dictator::new(configs, creator());
    assert_eq!(game.fund_contract(true, 100_001), Err(GameError::InvalidRoundContribution));
}

#[test]
fn dictator_force_complete_round() {
    let mut game = committed();
    game.reveal_round(alice(), (1, 11), 1_000_000).unwrap();
    assert_eq!(game.force_complete_round(true, 10), Err(GameError::RoundNotExpired));
    assert_eq!(
        game.force_complete_round(false, 11),
        Err(GameError::AccessControlError(AccessControlError::MissingRole))
    );
    // the dictator has set no prize: nothing is paid
    let mut stalled = game.clone();
    let settlement = stalled.force_complete_round(true, 11).unwrap();
    assert_eq!(settlement.payouts, vec![]);
    assert!(settlement.game_ended);
    assert_eq!(stalled.get_status(), GameStatus::Ended);
    assert_eq!(stalled.data.rounds[0].total_reward, 0);

    // the dictator has revealed, the other player has not
    let mut game = committed();
    game.reveal_round(bob(), (400_000, 22), 1_000_000).unwrap();
    let settlement = game.force_end_game(true, 11).unwrap();
    assert_eq!(settlement.payouts, vec![(bob(), 400_000)]);
    assert!(settlement.game_ended);
    assert_eq!(game.current_prize, None);
    assert_eq!(game.get_status(), GameStatus::Ended);
}
