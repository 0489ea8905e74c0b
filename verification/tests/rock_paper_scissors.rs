use game_theory::rock_paper_scissors::duel_score;
use game_theory::{
    commit, AccessControlError, AccountId, GameConfigs, GameError, GameRound, GameStatus,
    RockPaperScissors, RoundStatus, Settlement,
};

fn account(n: u8) -> AccountId {
    AccountId { bytes: [n; 32] }
}

fn alice() -> AccountId {
    account(1)
}

fn bob() -> AccountId {
    account(2)
}

fn charlie() -> AccountId {
    account(3)
}

fn creator() -> AccountId {
    account(9)
}

fn configs_for(max_players: u8, min_players: u8) -> GameConfigs {
    GameConfigs {
        max_players,
        min_players,
        min_round_contribution: None,
        max_round_contribution: None,
        round_reward_multiplier: None,
        post_round_actions: false,
        round_timeout: None,
        max_rounds: None,
        join_fee: None,
        is_rounds_based: false,
    }
}

/// Alice and Bob have joined and the game has started in block 1.
fn started() -> RockPaperScissors {
    let mut game = RockPaperScissors::default(creator());
    assert_eq!(game.join(alice(), alice(), 0), Ok(1));
    assert_eq!(game.join(bob(), bob(), 0), Ok(2));
    assert_eq!(game.start_game(1), Ok(()));
    game
}

/// Alice has played `first` and Bob `second`, each paying 1, and both have
/// revealed.
fn played(first: u128, second: u128) -> RockPaperScissors {
    let mut game = started();
    assert_eq!(game.play_round(alice(), commit(first, 69), 1), Ok(false));
    assert_eq!(game.play_round(bob(), commit(second, 42), 1), Ok(true));
    assert_eq!(game.reveal_round(alice(), (first, 69)), Ok(()));
    assert_eq!(game.reveal_round(bob(), (second, 42)), Ok(()));
    game
}

#[test]
fn rps_default_works() {
    let rock_paper_scissors = RockPaperScissors::default(creator());
    assert_eq!(rock_paper_scissors.get_players(), vec![]);
    assert_eq!(rock_paper_scissors.get_current_round(), None)
}

#[test]
fn rps_new_works() {
    let rock_paper_scissors = RockPaperScissors::new(configs_for(2, 2), creator());
    assert_eq!(rock_paper_scissors.get_players(), vec![]);
    assert_eq!(rock_paper_scissors.get_current_round(), None);
}

#[test]
fn rps_player_can_join() {
    let mut rock_paper_scissors = RockPaperScissors::default(creator());
    assert!(rock_paper_scissors.join(alice(), alice(), 0).is_ok());
}

#[test]
fn rps_player_must_join_as_self() {
    let mut rock_paper_scissors = RockPaperScissors::default(creator());
    assert!(rock_paper_scissors.join(alice(), bob(), 0).is_err());
}

#[test]
fn player_cannot_join_twice() {
    let mut rock_paper_scissors = RockPaperScissors::default(creator());
    assert!(rock_paper_scissors.join(alice(), alice(), 0).is_ok());
    assert_eq!(rock_paper_scissors.join(alice(), alice(), 0), Err(GameError::PlayerAlreadyJoined));
}

#[test]
fn start_game_works() {
    let mut rock_paper_scissors = RockPaperScissors::default(creator());
    assert!(rock_paper_scissors.join(alice(), alice(), 0).is_ok());
    assert!(rock_paper_scissors.join(bob(), bob(), 0).is_ok());

    let result = rock_paper_scissors.start_game(1);
    assert_eq!(result, Ok(()));
}

#[test]
fn play_round_works() {
    let mut rock_paper_scissors = RockPaperScissors::default(creator());
    assert!(rock_paper_scissors.join(alice(), alice(), 0).is_ok());
    assert!(rock_paper_scissors.join(bob(), bob(), 0).is_ok());

    let result = rock_paper_scissors.start_game(1);
    assert_eq!(result, Ok(()));

    let commitment = commit(0, 69);
    let value = rock_paper_scissors.get_configs().min_round_contribution.unwrap();
    let result = rock_paper_scissors.play_round(bob(), commitment, value);

    assert_eq!(result.map(|_| ()), Ok(()));
}

#[test]
fn default_parameters() {
    let game = RockPaperScissors::default(creator());
    assert_eq!(
        game.get_configs(),
        GameConfigs {
            max_players: 2,
            min_players: 2,
            min_round_contribution: Some(1),
            max_round_contribution: Some(10000),
            round_reward_multiplier: None,
            post_round_actions: false,
            round_timeout: None,
            max_rounds: None,
            join_fee: None,
            is_rounds_based: false,
        }
    );
    assert_eq!(game.get_status(), GameStatus::Ready);
    assert_eq!(game.data.created_by, creator());
    assert_eq!(game.data.next_round_id, 1);
}

#[test]
fn paper_beats_rock_and_takes_the_pot() {
    let mut game = RockPaperScissors::default(creator());
    assert_eq!(game.join(alice(), alice(), 0), Ok(1));
    assert_eq!(game.join(bob(), bob(), 0), Ok(2));
    assert_eq!(game.start_game(1), Ok(()));
    assert_eq!(game.get_status(), GameStatus::OnGoing);
    assert_eq!(game.get_current_round(), Some(GameRound::new(1)));

    assert_eq!(game.play_round(alice(), commit(0, 69), 1), Ok(false));
    assert_eq!(game.get_current_round().unwrap().status, RoundStatus::OnGoing);
    assert_eq!(game.play_round(bob(), commit(1, 42), 1), Ok(true));
    assert_eq!(game.reveal_round(alice(), (0, 69)), Ok(()));
    assert_eq!(game.reveal_round(bob(), (1, 42)), Ok(()));

    let settlement = game.complete_round(3).unwrap();
    assert_eq!(
        settlement,
        Settlement {
            round_id: 1,
            payouts: vec![(bob(), 2)],
            total_contribution: 2,
            game_ended: false
        }
    );
    let resolved = &game.data.rounds[0];
    assert_eq!(resolved.id, 1);
    assert_eq!(resolved.status, RoundStatus::Ended);
    assert_eq!(resolved.total_contribution, 2);
    assert_eq!(resolved.total_reward, 2);
    assert_eq!(resolved.player_commits, vec![(alice(), commit(0, 69)), (bob(), commit(1, 42))]);
    assert_eq!(resolved.player_reveals, vec![(alice(), (0, 69)), (bob(), (1, 42))]);
    assert_eq!(resolved.player_contributions, vec![(alice(), 1), (bob(), 1)]);
    assert_eq!(game.get_current_round(), Some(GameRound::new(2)));
    assert_eq!(game.get_status(), GameStatus::OnGoing);
    assert_eq!(game.data.next_round_id, 3);
}

#[test]
fn start_needs_enough_players() {
    let mut game = RockPaperScissors::default(creator());
    assert_eq!(game.join(alice(), alice(), 0), Ok(1));
    let before = game.clone();
    assert_eq!(game.start_game(1), Err(GameError::NotEnoughPlayers));
    assert_eq!(game.get_status(), GameStatus::Ready);
    assert_eq!(game, before);
}

#[test]
fn every_duel() {
    // 0 rock, 1 paper, 2 scissors; the score is 0 for a tie, 1 where the first
    // wins, 2 where the second wins
    let expected = [[0u8, 2, 1], [1, 0, 2], [2, 1, 0]];
    for first in 0..3u128 {
        for second in 0..3u128 {
            assert_eq!(duel_score(first, second), expected[first as usize][second as usize]);
            let mut game = played(first, second);
            let payouts = game.complete_round(2).unwrap().payouts;
            match expected[first as usize][second as usize] {
                1 => assert_eq!(payouts, vec![(alice(), 2)]),
                2 => assert_eq!(payouts, vec![(bob(), 2)]),
                _ => assert_eq!(payouts, vec![]),
            }
        }
    }
    assert_eq!(duel_score(u128::MAX, 0), 0);
    assert_eq!(duel_score(0, u128::MAX), 0);
    assert_eq!(duel_score(4, 8), 2);
}

#[test]
fn a_tie_pays_nobody() {
    let mut game = started();
    assert_eq!(game.play_round(alice(), commit(2, 69), 5), Ok(false));
    assert_eq!(game.play_round(bob(), commit(2, 42), 3), Ok(true));
    assert_eq!(game.reveal_round(bob(), (2, 42)), Ok(()));
    assert_eq!(game.reveal_round(alice(), (2, 69)), Ok(()));
    let settlement = game.complete_round(2).unwrap();
    assert_eq!(settlement.payouts, vec![]);
    assert_eq!(settlement.round_id, 1);
    assert_eq!(settlement.total_contribution, 8);
    assert!(!settlement.game_ended);
    assert_eq!(game.data.rounds[0].total_contribution, 8);
    assert_eq!(game.data.rounds[0].total_reward, 0);
    assert_eq!(game.data.rounds[0].status, RoundStatus::Ended);
    assert_eq!(game.get_current_round(), Some(GameRound::new(2)));
}

#[test]
fn the_first_two_to_reveal_fight_the_duel() {
    let mut game = RockPaperScissors::new(configs_for(3, 3), creator());
    for (player, choice) in [(alice(), 0u128), (bob(), 1), (charlie(), 2)] {
        game.join(player, player, 0).unwrap();
        assert_eq!(game.get_status(), GameStatus::Ready);
        let _ = choice;
    }
    game.start_game(1).unwrap();
    for (player, choice) in [(alice(), 0u128), (bob(), 1), (charlie(), 2)] {
        game.play_round(player, commit(choice, 7), 10).unwrap();
    }
    for (player, choice) in [(alice(), 0u128), (bob(), 1), (charlie(), 2)] {
        game.reveal_round(player, (choice, 7)).unwrap();
    }
    // rock against paper: the second to reveal takes all that was paid in
    let settlement = game.complete_round(2).unwrap();
    assert_eq!(settlement.payouts, vec![(bob(), 30)]);
    assert_eq!(game.data.rounds[0].total_reward, 30);
}

#[test]
fn a_round_of_one_pays_nobody() {
    let mut game = RockPaperScissors::new(configs_for(1, 1), creator());
    game.join(alice(), alice(), 0).unwrap();
    game.start_game(1).unwrap();
    game.play_round(alice(), commit(1, 7), 10).unwrap();
    game.reveal_round(alice(), (1, 7)).unwrap();
    let settlement = game.complete_round(2).unwrap();
    assert_eq!(settlement.payouts, vec![]);
    assert_eq!(game.data.rounds[0].total_reward, 0);
}

#[test]
fn get_winners_of_a_round() {
    let game = played(2, 1);
    let round = game.get_current_round().unwrap();
    assert_eq!(RockPaperScissors::get_winners(&round), vec![(alice(), 2)]);
    assert_eq!(RockPaperScissors::get_winners(&GameRound::new(4)), vec![]);
}

#[test]
fn play_round_errors() {
    let mut game = RockPaperScissors::default(creator());
    game.join(alice(), alice(), 0).unwrap();
    game.join(bob(), bob(), 0).unwrap();
    assert_eq!(game.play_round(alice(), commit(0, 1), 1), Err(GameError::InvalidGameState));
    game.start_game(1).unwrap();

    let before = game.clone();
    assert_eq!(game.play_round(alice(), commit(0, 1), 0), Err(GameError::InvalidRoundContribution));
    assert_eq!(game, before);
    assert_eq!(game.get_current_round().unwrap().status, RoundStatus::Ready);

    assert_eq!(game.play_round(alice(), commit(0, 1), 7), Ok(false));
    let before = game.clone();
    assert_eq!(game.play_round(alice(), commit(1, 1), 7), Err(GameError::PlayerAlreadyCommitted));
    assert_eq!(game.play_round(alice(), commit(1, 1), 0), Err(GameError::PlayerAlreadyCommitted));
    assert_eq!(game, before);
    let round = game.get_current_round().unwrap();
    assert_eq!(round.total_contribution, 7);
    assert_eq!(round.player_contributions, vec![(alice(), 7)]);
}

#[test]
fn play_without_a_least_contribution() {
    let mut game = RockPaperScissors::new(configs_for(2, 2), creator());
    game.join(alice(), alice(), 0).unwrap();
    game.join(bob(), bob(), 0).unwrap();
    game.start_game(1).unwrap();
    assert_eq!(game.play_round(alice(), commit(0, 1), 0), Ok(false));
    assert_eq!(game.play_round(bob(), commit(1, 1), u128::MAX), Ok(true));
    assert_eq!(game.get_current_round().unwrap().total_contribution, u128::MAX);
}

#[test]
fn reveal_round_errors() {
    let mut game = RockPaperScissors::default(creator());
    assert_eq!(game.reveal_round(alice(), (0, 69)), Err(GameError::NoCurrentRound));
    assert_eq!(game.reveal_round(alice(), (3, 69)), Err(GameError::NoCurrentRound));
    game.join(alice(), alice(), 0).unwrap();
    game.join(bob(), bob(), 0).unwrap();
    game.start_game(1).unwrap();
    assert_eq!(game.reveal_round(alice(), (0, 69)), Err(GameError::CommitmentNotFound));
    game.play_round(alice(), commit(0, 69), 1).unwrap();
    game.play_round(bob(), commit(3, 42), 1).unwrap();

    let before = game.clone();
    assert_eq!(game.reveal_round(alice(), (1, 69)), Err(GameError::InvalidReveal));
    assert_eq!(game.reveal_round(alice(), (0, 70)), Err(GameError::InvalidReveal));
    // a pair other than the committed one is an invalid reveal, whatever it names
    assert_eq!(game.reveal_round(alice(), (3, 69)), Err(GameError::InvalidReveal));
    assert_eq!(game.reveal_round(alice(), (69, 0)), Err(GameError::InvalidReveal));
    // the committed pair names no choice
    assert_eq!(game.reveal_round(bob(), (3, 42)), Err(GameError::InvalidChoice));
    assert_eq!(game.reveal_round(charlie(), (0, 69)), Err(GameError::CommitmentNotFound));
    assert_eq!(game.reveal_round(charlie(), (3, 69)), Err(GameError::CommitmentNotFound));
    assert_eq!(game, before);
    assert_eq!(game.get_current_round().unwrap().player_reveals, vec![]);

    assert_eq!(game.reveal_round(alice(), (0, 69)), Ok(()));
    let before = game.clone();
    assert_eq!(game.reveal_round(alice(), (0, 69)), Err(GameError::InvalidReveal));
    assert_eq!(game, before);
}

#[test]
fn complete_round_waits_for_every_reveal() {
    let mut game = started();
    assert_eq!(game.complete_round(2), Err(GameError::NotAllPlayersRevealed));
    game.play_round(alice(), commit(0, 69), 1).unwrap();
    game.play_round(bob(), commit(1, 42), 1).unwrap();
    game.reveal_round(alice(), (0, 69)).unwrap();
    let before = game.clone();
    assert_eq!(game.complete_round(2), Err(GameError::NotAllPlayersRevealed));
    assert_eq!(game, before);
    game.reveal_round(bob(), (1, 42)).unwrap();
    assert!(game.complete_round(2).is_ok());
    assert_eq!(game.complete_round(3), Err(GameError::NotAllPlayersRevealed));
}

#[test]
fn complete_round_before_start() {
    let mut game = RockPaperScissors::default(creator());
    assert_eq!(game.complete_round(2), Err(GameError::NoCurrentRound));
}

#[test]
fn end_game_between_rounds() {
    let mut game = RockPaperScissors::default(creator());
    assert_eq!(game.end_game(), Err(GameError::InvalidGameState));
    game.join(alice(), alice(), 0).unwrap();
    game.join(bob(), bob(), 0).unwrap();
    game.start_game(1).unwrap();
    // no round has been played yet
    assert_eq!(game.end_game(), Err(GameError::InvalidRoundState));
    game.play_round(alice(), commit(0, 69), 1).unwrap();
    game.play_round(bob(), commit(1, 42), 1).unwrap();
    // a round is under way
    assert_eq!(game.end_game(), Err(GameError::InvalidRoundState));
    game.reveal_round(alice(), (0, 69)).unwrap();
    game.reveal_round(bob(), (1, 42)).unwrap();
    game.complete_round(2).unwrap();

    let mut again = game.clone();
    again.play_round(alice(), commit(0, 69), 1).unwrap();
    let before = again.clone();
    assert_eq!(again.end_game(), Err(GameError::InvalidRoundState));
    assert_eq!(again, before);

    assert_eq!(game.end_game(), Ok(creator()));
    assert_eq!(game.get_status(), GameStatus::Ended);
    assert_eq!(game.get_current_round(), None);
    assert_eq!(game.data.rounds.len(), 1);
    assert_eq!(game.end_game(), Err(GameError::InvalidGameState));
    assert_eq!(game.start_game(9), Err(GameError::InvalidGameState));
}

#[test]
fn game_of_one_round_ends_with_it() {
    let mut configs = configs_for(2, 2);
    configs.max_rounds = Some(1);
    let mut game = RockPaperScissors::new(configs, creator());
    game.join(alice(), alice(), 0).unwrap();
    game.join(bob(), bob(), 0).unwrap();
    game.start_game(1).unwrap();
    game.play_round(alice(), commit(0, 69), 1).unwrap();
    game.play_round(bob(), commit(2, 42), 4).unwrap();
    game.reveal_round(alice(), (0, 69)).unwrap();
    game.reveal_round(bob(), (2, 42)).unwrap();
    let settlement = game.complete_round(2).unwrap();
    assert_eq!(settlement.payouts, vec![(alice(), 5)]);
    assert!(settlement.game_ended);
    assert_eq!(game.get_status(), GameStatus::Ended);
    assert_eq!(game.get_current_round(), None);
    assert_eq!(game.data.next_round_id, 2);
}

#[test]
fn round_ids_increase_until_they_run_out() {
    let mut game = RockPaperScissors::new(configs_for(0, 0), creator());
    game.start_game(1).unwrap();
    let mut last_id = 0u8;
    for n in 1u32..=253 {
        let id = game.get_current_round().unwrap().id;
        assert!(id > last_id);
        last_id = id;
        assert_eq!(id as u32, n);
        let settlement = game.complete_round(n).unwrap();
        assert_eq!(settlement.round_id, id);
        assert!(!settlement.game_ended);
        assert_eq!(game.data.next_round_id as u32, n + 2);
    }
    assert_eq!(game.get_current_round().unwrap().id, 254);
    assert_eq!(game.data.next_round_id, 255);
    let settlement = game.complete_round(300).unwrap();
    assert_eq!(settlement.round_id, 254);
    assert!(settlement.game_ended);
    assert_eq!(game.get_status(), GameStatus::Ended);
    assert_eq!(game.data.rounds.len(), 254);
    for (i, round) in game.data.rounds.iter().enumerate() {
        assert_eq!(round.id as usize, i + 1);
        assert_eq!(round.status, RoundStatus::Ended);
    }
}

#[test]
fn force_complete_round_refunds_those_who_revealed() {
    let mut game = started();
    game.play_round(alice(), commit(0, 69), 4).unwrap();
    game.play_round(bob(), commit(1, 42), 6).unwrap();
    game.reveal_round(alice(), (0, 69)).unwrap();

    let before = game.clone();
    assert_eq!(
        game.force_complete_round(false, 100),
        Err(GameError::AccessControlError(AccessControlError::MissingRole))
    );
    assert_eq!(game.force_complete_round(true, 10), Err(GameError::RoundNotExpired));
    assert_eq!(game, before);

    let settlement = game.force_complete_round(true, 11).unwrap();
    assert_eq!(settlement.payouts, vec![(alice(), 4)]);
    assert_eq!(settlement.total_contribution, 10);
    assert!(!settlement.game_ended);
    assert_eq!(game.data.rounds[0].total_reward, 4);
    assert_eq!(game.data.rounds[0].status, RoundStatus::Ended);
    assert_eq!(game.get_current_round(), Some(GameRound::new(2)));
}

#[test]
fn force_complete_round_settles_a_finished_duel() {
    let mut game = played(1, 0);
    let settlement = game.force_complete_round(true, 50).unwrap();
    assert_eq!(settlement.payouts, vec![(alice(), 2)]);
    let mut tie = played(1, 1);
    assert_eq!(tie.force_complete_round(true, 50).unwrap().payouts, vec![]);
    assert_eq!(tie.data.rounds[0].total_reward, 0);
}

#[test]
fn force_end_game_ends_the_game() {
    let mut game = started();
    game.play_round(bob(), commit(1, 42), 6).unwrap();
    assert_eq!(game.force_end_game(true, 5), Err(GameError::RoundNotExpired));
    let settlement = game.force_end_game(true, 40).unwrap();
    assert_eq!(settlement.payouts, vec![]);
    assert!(settlement.game_ended);
    assert_eq!(settlement.total_contribution, 6);
    assert_eq!(game.get_status(), GameStatus::Ended);
    assert_eq!(game.get_current_round(), None);
    assert_eq!(game.data.rounds[0].total_reward, 0);
}

#[test]
fn undelivered_payouts_are_reported() {
    let settlement = Settlement {
        round_id: 1,
        payouts: vec![(alice(), 1), (bob(), 2), (charlie(), 3)],
        total_contribution: 6,
        game_ended: false,
    };
    assert_eq!(settlement.undelivered(&vec![true, true, true]), vec![]);
    assert_eq!(settlement.undelivered(&vec![true, false, true]), vec![(bob(), 2)]);
    assert_eq!(settlement.undelivered(&vec![false, true]), vec![(alice(), 1), (charlie(), 3)]);
    assert_eq!(settlement.undelivered(&vec![]), vec![(alice(), 1), (bob(), 2), (charlie(), 3)]);
}

#[test]
fn rps_hash_commitment() {
    let game = RockPaperScissors::default(creator());
    assert_eq!(game.hash_commitment(0, 69), Ok(commit(0, 69)));
    assert_ne!(game.hash_commitment(0, 69), game.hash_commitment(69, 0));
}
