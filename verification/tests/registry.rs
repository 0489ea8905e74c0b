use game_theory::{
    AccountId, ContributionRule, Data, GameConfigs, GameError, GameStatus, RockPaperScissors,
};

fn account(n: u8) -> AccountId {
    AccountId { bytes: [n; 32] }
}

fn configs_for(max_players: u8, join_fee: Option<u128>) -> GameConfigs {
    GameConfigs {
        max_players,
        min_players: 1,
        min_round_contribution: None,
        max_round_contribution: None,
        round_reward_multiplier: None,
        post_round_actions: false,
        round_timeout: None,
        max_rounds: None,
        join_fee,
        is_rounds_based: false,
    }
}

#[test]
fn accounts_are_equal_when_their_bytes_are() {
    assert_eq!(account(1), account(1));
    assert_ne!(account(1), account(2));
    let mut other = account(1);
    other.bytes[31] = 0;
    assert_ne!(account(1), other);
    other.bytes[31] = 1;
    assert_eq!(account(1), other);
}

#[test]
fn the_registry_never_outgrows_the_game() {
    let mut game = RockPaperScissors::new(configs_for(5, None), account(0));
    let mut joined: Vec<AccountId> = Vec::new();
    // every account tries to join three times
    for turn in 0..3 {
        for n in 1u8..=20 {
            let result = game.join(account(n), account(n), 0);
            if turn == 0 && n <= 5 {
                assert_eq!(result, Ok(n));
                joined.push(account(n));
            } else {
                assert_eq!(result, Err(GameError::MaxPlayersReached));
            }
            let players = game.get_players();
            assert!(players.len() <= 5);
            assert_eq!(players, joined);
            for (i, a) in players.iter().enumerate() {
                for b in players.iter().skip(i + 1) {
                    assert_ne!(a, b);
                }
            }
        }
    }
}

#[test]
fn nobody_joins_for_another() {
    let mut game = RockPaperScissors::new(configs_for(5, None), account(0));
    game.join(account(1), account(1), 0).unwrap();
    let before = game.clone();
    for caller in 0u8..10 {
        for player in 0u8..10 {
            if caller != player {
                assert_eq!(
                    game.join(account(caller), account(player), u128::MAX),
                    Err(GameError::CallerMustMatchNewPlayer)
                );
                assert_eq!(game, before);
            }
        }
    }
}

#[test]
fn join_errors_in_order() {
    let mut game = RockPaperScissors::new(configs_for(2, Some(10)), account(0));
    assert_eq!(game.join(account(1), account(1), 9), Err(GameError::InsufficientJoiningFees));
    assert_eq!(game.join(account(1), account(2), 9), Err(GameError::CallerMustMatchNewPlayer));
    assert_eq!(game.get_players(), vec![]);
    assert_eq!(game.join(account(1), account(1), 10), Ok(1));
    assert_eq!(game.join(account(1), account(1), 9), Err(GameError::PlayerAlreadyJoined));
    assert_eq!(game.join(account(2), account(2), 11), Ok(2));
    // a full game answers that it is full, also to a player who is in it
    assert_eq!(game.join(account(1), account(1), 10), Err(GameError::MaxPlayersReached));
    assert_eq!(game.join(account(3), account(3), 0), Err(GameError::MaxPlayersReached));
    assert_eq!(game.get_players(), vec![account(1), account(2)]);
}

#[test]
fn a_game_may_hold_255_players() {
    let mut game = RockPaperScissors::new(configs_for(255, None), account(0));
    for n in 0u16..255 {
        let mut who = account(0);
        who.bytes[0] = (n % 256) as u8;
        who.bytes[1] = 1;
        assert_eq!(game.join(who, who, 0), Ok((n + 1) as u8));
    }
    assert_eq!(game.join(account(77), account(77), 0), Err(GameError::MaxPlayersReached));
    assert_eq!(game.get_players().len(), 255);
}

#[test]
fn players_may_join_a_game_that_has_started() {
    let mut game = RockPaperScissors::new(configs_for(3, None), account(0));
    game.join(account(1), account(1), 0).unwrap();
    game.start_game(1).unwrap();
    assert_eq!(game.join(account(2), account(2), 0), Ok(2));
    assert_eq!(game.get_status(), GameStatus::OnGoing);
}

#[test]
fn the_session_of_a_game() {
    let mut data = Data::new(account(0), configs_for(2, None));
    assert_eq!(data.check_admit(account(1)), Ok(()));
    assert_eq!(data.add_player(account(1)), Ok(1));
    assert_eq!(data.check_admit(account(1)), Err(GameError::PlayerAlreadyJoined));
    assert_eq!(data.add_player(account(1)), Err(GameError::PlayerAlreadyJoined));
    assert_eq!(data.check_completion(), Err(GameError::NoCurrentRound));
    assert_eq!(data.round_timeout(), 10);
    assert!(!data.is_at_last_round());
    assert_eq!(
        data.record_commit(account(1), game_theory::commit(1, 1), 3, ContributionRule::Free),
        Err(GameError::NoCurrentRound)
    );
    assert_eq!(data.start(8), Ok(()));
    assert_eq!(
        data.record_commit(account(1), game_theory::commit(1, 1), 3, ContributionRule::AtLeast(4)),
        Err(GameError::InvalidRoundContribution)
    );
    assert_eq!(
        data.record_commit(account(1), game_theory::commit(1, 1), 3, ContributionRule::Exactly(3)),
        Ok(true)
    );
    assert_eq!(data.check_reveal(account(1), (1, 2)), Err(GameError::InvalidReveal));
    assert_eq!(data.check_reveal(account(1), (1, 1)), Ok(()));
    assert_eq!(data.record_reveal(account(1), (1, 1)), Ok(()));
    assert_eq!(data.check_completion(), Ok(()));
    assert_eq!(data.check_force(true, 17), Err(GameError::RoundNotExpired));
    assert_eq!(data.check_force(true, 18), Ok(()));
    assert_eq!(data.close_round(3, 20), (1, 3, false));
    assert_eq!(data.close_game(0), (2, 0));
    assert_eq!(data.status, GameStatus::Ended);
    assert_eq!(data.end(), Err(GameError::InvalidGameState));
}

#[test]
fn all_have_committed_is_told_once_a_round() {
    let mut game = RockPaperScissors::new(configs_for(3, None), account(0));
    game.join(account(1), account(1), 0).unwrap();
    game.join(account(2), account(2), 0).unwrap();
    game.start_game(1).unwrap();
    assert_eq!(game.play_round(account(1), game_theory::commit(0, 1), 0), Ok(false));
    assert_eq!(game.play_round(account(2), game_theory::commit(1, 2), 0), Ok(true));
    assert!(game.data.all_committed);
    // a third player joins and commits: the counts meet again
    game.join(account(3), account(3), 0).unwrap();
    assert_eq!(game.play_round(account(3), game_theory::commit(2, 3), 0), Ok(false));
    game.reveal_round(account(1), (0, 1)).unwrap();
    game.reveal_round(account(2), (1, 2)).unwrap();
    game.reveal_round(account(3), (2, 3)).unwrap();
    game.complete_round(2).unwrap();
    // in the next round it is told again
    assert!(!game.data.all_committed);
    assert_eq!(game.play_round(account(1), game_theory::commit(0, 1), 0), Ok(false));
    assert_eq!(game.play_round(account(2), game_theory::commit(1, 2), 0), Ok(false));
    assert_eq!(game.play_round(account(3), game_theory::commit(2, 3), 0), Ok(true));
}

#[test]
fn contribution_rules() {
    assert!(ContributionRule::Free.accepts(0));
    assert!(ContributionRule::Free.accepts(u128::MAX));
    assert!(ContributionRule::AtLeast(5).accepts(5));
    assert!(ContributionRule::AtLeast(5).accepts(6));
    assert!(!ContributionRule::AtLeast(5).accepts(4));
    assert!(ContributionRule::Exactly(5).accepts(5));
    assert!(!ContributionRule::Exactly(5).accepts(6));
    assert!(!ContributionRule::Exactly(5).accepts(4));
}
