//! What the games have in common.

use crate::data::SessionView;
use crate::dictator::Dictator;
use crate::public_good::{rewardable, rewards, PublicGood};
use crate::rock_paper_scissors::RockPaperScissors;
use crate::round::{GameRound, RoundView};
use crate::types::{AccountId, GameConfigs, GameError, GameStatus, RoundStatus};
use vstd::prelude::*;

verus! {

/// What every game answers, and how a player joins it.
pub trait Basic: Sized {
    /// What a game keeps beside its session.
    type Beside;

    /// The session of the game.
    spec fn session(&self) -> SessionView;

    /// What the game keeps beside its session.
    spec fn beside(&self) -> Self::Beside;

    /// The invariant of the game.
    spec fn in_order(&self) -> bool;

    /// The parameters of the game.
    fn get_configs(&self) -> (configs: GameConfigs)
        ensures
            configs == self.session().configs,
    ;

    /// The players, in the order in which they joined.
    fn get_players(&self) -> (players: Vec<AccountId>)
        ensures
            players@ == self.session().players,
    ;

    /// The status of the game.
    fn get_status(&self) -> (status: GameStatus)
        ensures
            status == self.session().status,
    ;

    /// The round that is being played, if there is one.
    fn get_current_round(&self) -> (round: Option<GameRound>)
        ensures
            round is Some == self.session().current_round is Some,
            round is Some ==> round->0@ == self.session().current_round->0,
    ;

    /// Enters `player`, who must be the caller, with `value` paid towards the
    /// joining fee. Returns the number of players.
    fn join(&mut self, caller: AccountId, player: AccountId, value: u128) -> (r: Result<
        u8,
        GameError,
    >)
        requires
            old(self).in_order(),
        ensures
            final(self).in_order(),
            match old(self).session().join_error(caller, player, value) {
                Some(e) => r == Err::<u8, GameError>(e) && *final(self) == *old(self),
                None => r == Ok::<u8, GameError>((old(self).session().players.len() + 1) as u8)
                    && final(self).session() == old(self).session().joined(player)
                    && final(self).beside() == old(self).beside(),
            },
    ;
}

impl Basic for RockPaperScissors {
    type Beside = ();

    open spec fn session(&self) -> SessionView {
        self@
    }

    open spec fn beside(&self) -> () {
        ()
    }

    open spec fn in_order(&self) -> bool {
        self.wf()
    }

    fn get_configs(&self) -> (configs: GameConfigs) {
        RockPaperScissors::get_configs(self)
    }

    fn get_players(&self) -> (players: Vec<AccountId>) {
        RockPaperScissors::get_players(self)
    }

    fn get_status(&self) -> (status: GameStatus) {
        RockPaperScissors::get_status(self)
    }

    fn get_current_round(&self) -> (round: Option<GameRound>) {
        RockPaperScissors::get_current_round(self)
    }

    fn join(&mut self, caller: AccountId, player: AccountId, value: u128) -> (r: Result<
        u8,
        GameError,
    >) {
        RockPaperScissors::join(self, caller, player, value)
    }
}

impl Basic for PublicGood {
    type Beside = ();

    open spec fn session(&self) -> SessionView {
        self@
    }

    open spec fn beside(&self) -> () {
        ()
    }

    open spec fn in_order(&self) -> bool {
        self.wf()
    }

    fn get_configs(&self) -> (configs: GameConfigs) {
        PublicGood::get_configs(self)
    }

    fn get_players(&self) -> (players: Vec<AccountId>) {
        PublicGood::get_players(self)
    }

    fn get_status(&self) -> (status: GameStatus) {
        PublicGood::get_status(self)
    }

    fn get_current_round(&self) -> (round: Option<GameRound>) {
        PublicGood::get_current_round(self)
    }

    fn join(&mut self, caller: AccountId, player: AccountId, value: u128) -> (r: Result<
        u8,
        GameError,
    >) {
        PublicGood::join(self, caller, player, value)
    }
}

impl Basic for Dictator {
    /// The seed, the dictator and the prize of the current round.
    type Beside = (Option<[u8; 32]>, Option<AccountId>, Option<u128>);

    open spec fn session(&self) -> SessionView {
        self@.session
    }

    open spec fn beside(&self) -> (Option<[u8; 32]>, Option<AccountId>, Option<u128>) {
        (self@.seed, self@.dictator, self@.current_prize)
    }

    open spec fn in_order(&self) -> bool {
        self.wf()
    }

    fn get_configs(&self) -> (configs: GameConfigs) {
        Dictator::get_configs(self)
    }

    fn get_players(&self) -> (players: Vec<AccountId>) {
        Dictator::get_players(self)
    }

    fn get_status(&self) -> (status: GameStatus) {
        Dictator::get_status(self)
    }

    fn get_current_round(&self) -> (round: Option<GameRound>) {
        Dictator::get_current_round(self)
    }

    fn join(&mut self, caller: AccountId, player: AccountId, value: u128) -> (r: Result<
        u8,
        GameError,
    >) {
        Dictator::join(self, caller, player, value)
    }
}

/// How a game finds the winners of a round.
pub trait Utils {
    /// The winners of a round that was resolved, each with the reward, or
    /// why they cannot be told.
    spec fn winners(round: RoundView, configs: GameConfigs, players: Seq<AccountId>) -> Result<
        Seq<(AccountId, Option<u128>)>,
        GameError,
    >;

    /// Computes `winners`.
    fn get_winners(round: &GameRound, configs: &GameConfigs, players: &Vec<AccountId>) -> (r:
        Result<Vec<(AccountId, Option<u128>)>, GameError>)
        ensures
            match Self::winners(round@, *configs, players@) {
                Ok(winners) => r is Ok && r->Ok_0@ == winners,
                Err(e) => r == Err::<Vec<(AccountId, Option<u128>)>, GameError>(e),
            },
    ;
}

impl Utils for PublicGood {
    /// To each player who revealed, what the revealed contribution earns.
    open spec fn winners(round: RoundView, configs: GameConfigs, players: Seq<AccountId>) -> Result<
        Seq<(AccountId, Option<u128>)>,
        GameError,
    > {
        if round.status != RoundStatus::Ended {
            Err(GameError::RoundNotEnded)
        } else if !rewardable(round, configs) {
            Err(GameError::FailedToGetWinners)
        } else {
            Ok(
                rewards(round.reveals, configs.round_reward_multiplier->0).map_values(
                    |entry: (AccountId, u128)| (entry.0, Some(entry.1)),
                ),
            )
        }
    }

    fn get_winners(round: &GameRound, configs: &GameConfigs, players: &Vec<AccountId>) -> (r:
        Result<Vec<(AccountId, Option<u128>)>, GameError>) {
        PublicGood::get_winners(round, configs, players)
    }
}

} // verus!
