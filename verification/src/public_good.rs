//! The Public Good game.

use crate::access::{only_role, role_error};
use crate::commitment::{commit, opens};
use crate::data::{ContributionRule, Data, SessionView, Settlement};
use crate::round::{copy_of, sum_of, total_of, GameRound, RoundView};
use crate::types::{AccountId, GameConfigs, GameError, GameStatus, RoundStatus};
use vstd::prelude::*;

verus! {

/// The size of a multiplier, whatever its sign.
pub open spec fn magnitude(multiplier: i8) -> nat {
    if multiplier < 0 {
        (-multiplier) as nat
    } else {
        multiplier as nat
    }
}

/// What a contribution of `value` earns: the contribution times the
/// multiplier, which counts tenths, rounded down.
pub open spec fn reward_of(value: u128, multiplier: i8) -> nat {
    value as nat * magnitude(multiplier) / 10
}

/// The payments that resolve a round: to each player who revealed, in the
/// order of the reveals, what the revealed contribution earns.
pub open spec fn rewards(reveals: Seq<(AccountId, (u128, u128))>, multiplier: i8) -> Seq<
    (AccountId, u128),
> {
    reveals.map_values(
        |entry: (AccountId, (u128, u128))| (entry.0, reward_of(entry.1.0, multiplier) as u128),
    )
}

/// Each reward of the round can be written down: there is a multiplier, and
/// no product of a contribution with it leaves the range of `u128`.
pub open spec fn rewardable(round: RoundView, configs: GameConfigs) -> bool {
    &&& configs.round_reward_multiplier is Some
    &&& forall|i: int|
        0 <= i < round.reveals.len() ==> (#[trigger] round.reveals[i]).1.0 * magnitude(
            configs.round_reward_multiplier->0,
        ) <= u128::MAX
}

/// The rewards of the round and their sum can be written down.
pub open spec fn payable(round: RoundView, configs: GameConfigs) -> bool {
    &&& rewardable(round, configs)
    &&& total_of(rewards(round.reveals, configs.round_reward_multiplier->0)) <= u128::MAX
}

/// A sum as it is recorded where nothing may stand in the way of recording
/// it: the sum itself, or the largest `u128` where the sum lies beyond it.
pub open spec fn capped(sum: nat) -> u128 {
    if sum > u128::MAX {
        u128::MAX
    } else {
        sum as u128
    }
}

/// Computes `magnitude`.
pub fn magnitude_of(multiplier: i8) -> (size: u128)
    ensures
        size == magnitude(multiplier),
{
    let wide: i16 = multiplier as i16;
    if wide < 0 {
        (-wide) as u128
    } else {
        wide as u128
    }
}

/// Computes the rewards of the round, where `rewardable` holds.
pub fn allot(round: &GameRound, configs: &GameConfigs) -> (r: Option<Vec<(AccountId, u128)>>)
    ensures
        match r {
            Some(amounts) => rewardable(round@, *configs) && amounts@ == rewards(
                round@.reveals,
                configs.round_reward_multiplier->0,
            ),
            None => !rewardable(round@, *configs),
        },
{
    let multiplier = match configs.round_reward_multiplier {
        Some(multiplier) => multiplier,
        None => {
            return None;
        },
    };
    let factor = magnitude_of(multiplier);
    let ghost all = rewards(round@.reveals, multiplier);
    let mut out: Vec<(AccountId, u128)> = Vec::new();
    let mut i: usize = 0;
    assert(all.take(0) =~= out@);
    while i < round.player_reveals.len()
        invariant
            i <= round.player_reveals.len(),
            factor == magnitude(multiplier),
            configs.round_reward_multiplier == Some(multiplier),
            all == rewards(round@.reveals, multiplier),
            all.len() == round@.reveals.len(),
            out@ == all.take(i as int),
            forall|j: int|
                0 <= j < i ==> (#[trigger] round@.reveals[j]).1.0 * magnitude(multiplier)
                    <= u128::MAX,
        decreases round.player_reveals.len() - i,
    {
        let entry = round.player_reveals[i];
        let product = match entry.1.0.checked_mul(factor) {
            Some(product) => product,
            None => {
                assert(round@.reveals[i as int].1.0 * magnitude(multiplier) > u128::MAX);
                return None;
            },
        };
        let reward: u128 = product / 10;
        assert(reward == reward_of(entry.1.0, multiplier));
        assert(all[i as int] == (entry.0, reward));
        assert(all.take(i + 1) =~= all.take(i as int).push((entry.0, reward)));
        out.push((entry.0, reward));
        i += 1;
    }
    assert(all.take(i as int) =~= all);
    Some(out)
}

/// One game of Public Good. Every player pays the largest contribution with
/// the commitment, so that the payment tells nothing of the contribution that
/// the commitment hides; what was paid beyond the revealed contribution goes
/// back when it is revealed.
#[derive(Clone, Debug, PartialEq, Eq)]
pub struct PublicGood {
    pub data: Data,
}

impl View for PublicGood {
    type V = SessionView;

    open spec fn view(&self) -> SessionView {
        self.data@
    }
}

impl PublicGood {
    /// The invariant of the game: that of its session, with both bounds on
    /// the contributions set.
    pub open spec fn wf(&self) -> bool {
        self.data.wf() && self@.configs.bounds_contributions()
    }

    /// Tests the invariant of the game.
    pub fn is_wf(&self) -> (ok: bool)
        ensures
            ok == self.wf(),
    {
        self.data.is_wf() && self.data.configs.has_contribution_bounds()
    }

    /// What every player pays with a commitment: the largest contribution.
    pub open spec fn stake(session: SessionView) -> u128 {
        session.configs.max_round_contribution->0
    }

    /// The parameters of a game for two to ten players over three rounds, with
    /// contributions between 100 and 1000 that earn twice their amount.
    pub open spec fn default_configs() -> GameConfigs {
        GameConfigs {
            max_players: 10,
            min_players: 2,
            min_round_contribution: Some(100u128),
            max_round_contribution: Some(1000u128),
            round_reward_multiplier: Some(20i8),
            post_round_actions: false,
            round_timeout: None,
            max_rounds: Some(3u32),
            join_fee: None,
            is_rounds_based: false,
        }
    }

    /// Why `player` cannot commit with `value`, if anything is in the way.
    pub open spec fn play_error(session: SessionView, player: AccountId, value: u128) -> Option<
        GameError,
    > {
        if session.status != GameStatus::OnGoing {
            Some(GameError::GameNotStarted)
        } else {
            session.commit_error(player, value, ContributionRule::Exactly(Self::stake(session)))
        }
    }

    /// Why `caller` cannot reveal `reveal`, if anything is in the way. The
    /// revealed contribution cannot be more than what was paid.
    pub open spec fn reveal_error(
        session: SessionView,
        caller: AccountId,
        reveal: (u128, u128),
    ) -> Option<GameError> {
        if session.reveal_error(caller, reveal) is Some {
            session.reveal_error(caller, reveal)
        } else if reveal.0 > Self::stake(session) {
            Some(GameError::InvalidRoundContribution)
        } else {
            None
        }
    }

    /// What goes back to a player who reveals `reveal`: what was paid beyond
    /// the revealed contribution.
    pub open spec fn refund(session: SessionView, reveal: (u128, u128)) -> u128 {
        (Self::stake(session) - reveal.0) as u128
    }

    /// Why the round cannot be resolved, if anything is in the way.
    pub open spec fn completion_error(session: SessionView) -> Option<GameError> {
        if session.completion_error() is Some {
            session.completion_error()
        } else if !payable(session.current_round->0, session.configs) {
            Some(GameError::FailedToGetWinners)
        } else {
            None
        }
    }

    /// A new game with these parameters, created by `creator`.
    pub fn new(configs: GameConfigs, creator: AccountId) -> (game: PublicGood)
        requires
            configs.valid(),
            configs.bounds_contributions(),
        ensures
            game.wf(),
            game@ == SessionView::created(creator, configs),
    {
        PublicGood { data: Data::new(creator, configs) }
    }

    /// A new game for two to ten players, created by `creator`.
    pub fn default(creator: AccountId) -> (game: PublicGood)
        ensures
            game.wf(),
            game@ == SessionView::created(creator, Self::default_configs()),
    {
        Self::new(
            GameConfigs {
                max_players: 10,
                min_players: 2,
                min_round_contribution: Some(100),
                max_round_contribution: Some(1000),
                round_reward_multiplier: Some(20),
                post_round_actions: false,
                round_timeout: None,
                max_rounds: Some(3),
                join_fee: None,
                is_rounds_based: false,
            },
            creator,
        )
    }

    /// Lets the announcement that the game was created go out only for a
    /// caller who holds the creator's role.
    pub fn emit_game_created(&self, has_role: bool) -> (r: Result<(), GameError>)
        ensures
            match role_error(has_role) {
                Some(e) => r == Err::<(), GameError>(e),
                None => r == Ok::<(), GameError>(()),
            },
    {
        only_role(has_role)
    }

    /// Lets the announcement that the game has started go out only for a
    /// caller who holds the creator's role.
    pub fn emit_game_started(&self, has_role: bool) -> (r: Result<(), GameError>)
        ensures
            match role_error(has_role) {
                Some(e) => r == Err::<(), GameError>(e),
                None => r == Ok::<(), GameError>(()),
            },
    {
        only_role(has_role)
    }

    /// The commitment to `(input, nonce)`.
    pub fn hash_commitment(&self, input: u128, nonce: u128) -> (r: Result<
        crate::types::Hash,
        GameError,
    >)
        ensures
            r is Ok,
            opens(r->Ok_0, input, nonce),
    {
        Ok(commit(input, nonce))
    }

    /// The parameters of the game.
    pub fn get_configs(&self) -> (configs: GameConfigs)
        ensures
            configs == self@.configs,
    {
        self.data.configs
    }

    /// The players, in the order in which they joined.
    pub fn get_players(&self) -> (players: Vec<AccountId>)
        ensures
            players@ == self@.players,
    {
        copy_of(&self.data.players)
    }

    /// The status of the game.
    pub fn get_status(&self) -> (status: GameStatus)
        ensures
            status == self@.status,
    {
        self.data.status
    }

    /// The round that is being played, if there is one.
    pub fn get_current_round(&self) -> (round: Option<GameRound>)
        ensures
            round is Some == self@.current_round is Some,
            round is Some ==> round->0@ == self@.current_round->0,
    {
        match &self.data.current_round {
            Some(round) => Some(round.duplicate()),
            None => None,
        }
    }

    /// Enters `player`, who must be the caller, with `value` paid towards the
    /// joining fee. Returns the number of players.
    pub fn join(&mut self, caller: AccountId, player: AccountId, value: u128) -> (r: Result<
        u8,
        GameError,
    >)
        requires
            old(self).wf(),
        ensures
            final(self).wf(),
            match old(self)@.join_error(caller, player, value) {
                Some(e) => r == Err::<u8, GameError>(e) && *final(self) == *old(self),
                None => r == Ok::<u8, GameError>((old(self)@.players.len() + 1) as u8)
                    && final(self)@ == old(self)@.joined(player),
            },
    {
        self.data.join(caller, player, value)
    }

    /// Starts the game in block `now`: opens the first round.
    pub fn start_game(&mut self, now: u32) -> (r: Result<(), GameError>)
        requires
            old(self).wf(),
        ensures
            final(self).wf(),
            match old(self)@.start_error() {
                Some(e) => r == Err::<(), GameError>(e) && *final(self) == *old(self),
                None => r == Ok::<(), GameError>(()) && final(self)@ == old(self)@.started(now),
            },
    {
        self.data.start(now)
    }

    /// Records the commitment of `caller`, who pays `value` into the round.
    /// Returns whether there are now, for the first time in the round, as
    /// many commitments as players.
    pub fn play_round(
        &mut self,
        caller: AccountId,
        commitment: crate::types::Hash,
        value: u128,
    ) -> (r: Result<bool, GameError>)
        requires
            old(self).wf(),
        ensures
            final(self).wf(),
            match Self::play_error(old(self)@, caller, value) {
                Some(e) => r == Err::<bool, GameError>(e) && *final(self) == *old(self),
                None => r == Ok::<bool, GameError>(old(self)@.commit_completes()) && final(self)@
                    == old(self)@.committed(caller, commitment, value),
            },
    {
        if self.data.status != GameStatus::OnGoing {
            return Err(GameError::GameNotStarted);
        }
        let stake = self.data.configs.max_round_contribution.unwrap();
        self.data.record_commit(caller, commitment, value, ContributionRule::Exactly(stake))
    }

    /// Decides whether `caller` may reveal `reveal`. Returns what is then to
    /// be paid back to the caller.
    pub fn reveal_refund(&self, caller: AccountId, reveal: (u128, u128)) -> (r: Result<
        u128,
        GameError,
    >)
        requires
            self.wf(),
        ensures
            match Self::reveal_error(self@, caller, reveal) {
                Some(e) => r == Err::<u128, GameError>(e),
                None => r == Ok::<u128, GameError>(Self::refund(self@, reveal)),
            },
    {
        match self.data.check_reveal(caller, reveal) {
            Err(e) => {
                return Err(e);
            },
            Ok(()) => {},
        }
        let stake = self.data.configs.max_round_contribution.unwrap();
        if reveal.0 > stake {
            return Err(GameError::InvalidRoundContribution);
        }
        Ok(stake - reveal.0)
    }

    /// Records the contribution and the nonce that `caller` reveals, the
    /// refund of `reveal_refund` having been sent or not. The reveal counts
    /// only if the refund went out.
    pub fn reveal_round(
        &mut self,
        caller: AccountId,
        reveal: (u128, u128),
        refund_sent: bool,
    ) -> (r: Result<(), GameError>)
        requires
            old(self).wf(),
        ensures
            final(self).wf(),
            match Self::reveal_error(old(self)@, caller, reveal) {
                Some(e) => r == Err::<(), GameError>(e) && *final(self) == *old(self),
                None => if refund_sent {
                    r == Ok::<(), GameError>(()) && final(self)@ == old(self)@.revealed(
                        caller,
                        reveal,
                    )
                } else {
                    r == Err::<(), GameError>(GameError::PartialContributionRefundFailed)
                        && *final(self) == *old(self)
                },
            },
    {
        match self.reveal_refund(caller, reveal) {
            Err(e) => {
                return Err(e);
            },
            Ok(_) => {},
        }
        if !refund_sent {
            return Err(GameError::PartialContributionRefundFailed);
        }
        self.data.record_reveal(caller, reveal)
    }

    /// The rewards of a round that was resolved.
    pub fn get_winners(round: &GameRound, configs: &GameConfigs, _players: &Vec<AccountId>) -> (r:
        Result<Vec<(AccountId, Option<u128>)>, GameError>)
        ensures
            round@.status != RoundStatus::Ended ==> r == Err::<
                Vec<(AccountId, Option<u128>)>,
                GameError,
            >(GameError::RoundNotEnded),
            round@.status == RoundStatus::Ended && !rewardable(round@, *configs) ==> r == Err::<
                Vec<(AccountId, Option<u128>)>,
                GameError,
            >(GameError::FailedToGetWinners),
            round@.status == RoundStatus::Ended && rewardable(round@, *configs) ==> r is Ok
                && r->Ok_0@ == rewards(
                round@.reveals,
                configs.round_reward_multiplier->0,
            ).map_values(|entry: (AccountId, u128)| (entry.0, Some(entry.1))),
    {
        if round.status != RoundStatus::Ended {
            return Err(GameError::RoundNotEnded);
        }
        let amounts = match allot(round, configs) {
            Some(amounts) => amounts,
            None => {
                return Err(GameError::FailedToGetWinners);
            },
        };
        let ghost wanted = amounts@.map_values(|entry: (AccountId, u128)| (entry.0, Some(entry.1)));
        let mut winners: Vec<(AccountId, Option<u128>)> = Vec::new();
        let mut i: usize = 0;
        assert(wanted.take(0) =~= winners@);
        while i < amounts.len()
            invariant
                i <= amounts.len(),
                wanted == amounts@.map_values(|entry: (AccountId, u128)| (entry.0, Some(entry.1))),
                winners@ == wanted.take(i as int),
            decreases amounts.len() - i,
        {
            let entry = amounts[i];
            winners.push((entry.0, Some(entry.1)));
            assert(wanted.take(i + 1) =~= wanted.take(i as int).push((entry.0, Some(entry.1))));
            i += 1;
        }
        assert(wanted.take(i as int) =~= wanted);
        Ok(winners)
    }

    /// Why the round cannot be closed by force in block `now`, if anything
    /// is in the way. Each reward must be such that it can be written down;
    /// their sum need not be.
    pub open spec fn force_error(session: SessionView, has_role: bool, now: u32) -> Option<
        GameError,
    > {
        if session.force_error(has_role, now) is Some {
            session.force_error(has_role, now)
        } else if !rewardable(session.current_round->0, session.configs) {
            Some(GameError::FailedToGetWinners)
        } else {
            None
        }
    }

    /// The rewards of the current round, where each can be written down.
    fn allot_current(&self) -> (r: Option<Vec<(AccountId, u128)>>)
        requires
            self@.current_round is Some,
        ensures
            match r {
                Some(amounts) => rewardable(self@.current_round->0, self@.configs) && amounts@
                    == rewards(
                    self@.current_round->0.reveals,
                    self@.configs.round_reward_multiplier->0,
                ),
                None => !rewardable(self@.current_round->0, self@.configs),
            },
    {
        allot(self.data.current_round.as_ref().unwrap(), &self.data.configs)
    }

    /// Resolves the round in block `now`, once every player has revealed:
    /// says who is to be paid what, closes the round, and opens the next round
    /// or ends the game.
    pub fn complete_round(&mut self, now: u32) -> (r: Result<Settlement, GameError>)
        requires
            old(self).wf(),
        ensures
            final(self).wf(),
            match Self::completion_error(old(self)@) {
                Some(e) => r == Err::<Settlement, GameError>(e) && *final(self) == *old(self),
                None => {
                    let round = old(self)@.current_round->0;
                    let paid = rewards(
                        round.reveals,
                        old(self)@.configs.round_reward_multiplier->0,
                    );
                    &&& r is Ok
                    &&& r->Ok_0.round_id == round.id
                    &&& r->Ok_0.payouts@ == paid
                    &&& r->Ok_0.total_contribution == round.total_contribution
                    &&& r->Ok_0.game_ended == old(self)@.at_last_round()
                    &&& final(self)@ == old(self)@.settled(total_of(paid) as u128, now)
                },
            },
    {
        match self.data.check_completion() {
            Err(e) => {
                return Err(e);
            },
            Ok(()) => {},
        }
        let payouts = match self.allot_current() {
            Some(payouts) => payouts,
            None => {
                return Err(GameError::FailedToGetWinners);
            },
        };
        let reward = match sum_of(&payouts) {
            Some(reward) => reward,
            None => {
                return Err(GameError::FailedToGetWinners);
            },
        };
        let (round_id, total_contribution, game_ended) = self.data.close_round(reward, now);
        Ok(Settlement { round_id, payouts, total_contribution, game_ended })
    }

    /// Closes a stale round in block `now` for a caller who holds the
    /// creator's role, whoever has revealed by then. Those who revealed get
    /// their rewards; what the others paid stays with the game. Then the next
    /// round is opened, or the game ends. A sum of rewards beyond the largest
    /// `u128` does not keep the round open: that number is recorded for it.
    pub fn force_complete_round(&mut self, has_role: bool, now: u32) -> (r: Result<
        Settlement,
        GameError,
    >)
        requires
            old(self).wf(),
        ensures
            final(self).wf(),
            match Self::force_error(old(self)@, has_role, now) {
                Some(e) => r == Err::<Settlement, GameError>(e) && *final(self) == *old(self),
                None => {
                    let round = old(self)@.current_round->0;
                    let paid = rewards(
                        round.reveals,
                        old(self)@.configs.round_reward_multiplier->0,
                    );
                    &&& r is Ok
                    &&& r->Ok_0.round_id == round.id
                    &&& r->Ok_0.payouts@ == paid
                    &&& r->Ok_0.total_contribution == round.total_contribution
                    &&& r->Ok_0.game_ended == old(self)@.at_last_round()
                    &&& final(self)@ == old(self)@.settled(capped(total_of(paid)), now)
                },
            },
    {
        match self.data.check_force(has_role, now) {
            Err(e) => {
                return Err(e);
            },
            Ok(()) => {},
        }
        let payouts = match self.allot_current() {
            Some(payouts) => payouts,
            None => {
                return Err(GameError::FailedToGetWinners);
            },
        };
        let reward = match sum_of(&payouts) {
            Some(reward) => reward,
            None => u128::MAX,
        };
        let (round_id, total_contribution, game_ended) = self.data.close_round(reward, now);
        Ok(Settlement { round_id, payouts, total_contribution, game_ended })
    }

    /// Closes a stale round by force as `force_complete_round` does, and ends
    /// the game with it, whatever rounds were still to come.
    pub fn force_end_game(&mut self, has_role: bool, now: u32) -> (r: Result<
        Settlement,
        GameError,
    >)
        requires
            old(self).wf(),
        ensures
            final(self).wf(),
            match Self::force_error(old(self)@, has_role, now) {
                Some(e) => r == Err::<Settlement, GameError>(e) && *final(self) == *old(self),
                None => {
                    let round = old(self)@.current_round->0;
                    let paid = rewards(
                        round.reveals,
                        old(self)@.configs.round_reward_multiplier->0,
                    );
                    &&& r is Ok
                    &&& r->Ok_0.round_id == round.id
                    &&& r->Ok_0.payouts@ == paid
                    &&& r->Ok_0.total_contribution == round.total_contribution
                    &&& r->Ok_0.game_ended
                    &&& final(self)@ == old(self)@.cut_short(capped(total_of(paid)))
                },
            },
    {
        match self.data.check_force(has_role, now) {
            Err(e) => {
                return Err(e);
            },
            Ok(()) => {},
        }
        let payouts = match self.allot_current() {
            Some(payouts) => payouts,
            None => {
                return Err(GameError::FailedToGetWinners);
            },
        };
        let reward = match sum_of(&payouts) {
            Some(reward) => reward,
            None => u128::MAX,
        };
        let (round_id, total_contribution) = self.data.close_game(reward);
        Ok(Settlement { round_id, payouts, total_contribution, game_ended: true })
    }

    /// Ends the game between two rounds. Returns the creator, to whom what the
    /// game still holds is to go.
    pub fn end_game(&mut self) -> (r: Result<AccountId, GameError>)
        requires
            old(self).wf(),
        ensures
            final(self).wf(),
            match old(self)@.end_error() {
                Some(e) => r == Err::<AccountId, GameError>(e) && *final(self) == *old(self),
                None => r == Ok::<AccountId, GameError>(old(self)@.created_by) && final(self)@
                    == old(self)@.ended(),
            },
    {
        self.data.end()
    }

    /// Enters `player` for a caller who holds the creator's role. A payment of
    /// `value` that comes with the call is the player's: `forwarded` says
    /// whether it was passed on. Returns the number of players.
    pub fn add_player_to_game(
        &mut self,
        has_role: bool,
        player: AccountId,
        value: u128,
        forwarded: bool,
    ) -> (r: Result<u8, GameError>)
        requires
            old(self).wf(),
        ensures
            final(self).wf(),
            match old(self)@.add_error(has_role, player, value, forwarded) {
                Some(e) => r == Err::<u8, GameError>(e) && *final(self) == *old(self),
                None => r == Ok::<u8, GameError>((old(self)@.players.len() + 1) as u8)
                    && final(self)@ == old(self)@.joined(player),
            },
    {
        self.data.add_player_to_game(has_role, player, value, forwarded)
    }

    /// Records a commitment for `as_player`, made by a caller who holds the
    /// creator's role, with `value` paid into the round. Returns whether
    /// there are now, for the first time in the round, as many commitments as
    /// players.
    pub fn play_round_as_player(
        &mut self,
        has_role: bool,
        as_player: AccountId,
        commitment: crate::types::Hash,
        value: u128,
    ) -> (r: Result<bool, GameError>)
        requires
            old(self).wf(),
        ensures
            final(self).wf(),
            !has_role ==> r == Err::<bool, GameError>(role_error(has_role)->0) && *final(self)
                == *old(self),
            has_role ==> match Self::play_error(old(self)@, as_player, value) {
                Some(e) => r == Err::<bool, GameError>(e) && *final(self) == *old(self),
                None => r == Ok::<bool, GameError>(old(self)@.commit_completes()) && final(self)@
                    == old(self)@.committed(as_player, commitment, value),
            },
    {
        match only_role(has_role) {
            Err(e) => {
                return Err(e);
            },
            Ok(()) => {},
        }
        self.play_round(as_player, commitment, value)
    }

    /// Records what is revealed for `as_player` by a caller who holds the
    /// creator's role, the refund of `reveal_refund` having been sent to the
    /// player or not.
    pub fn reveal_round_as_player(
        &mut self,
        has_role: bool,
        as_player: AccountId,
        reveal: (u128, u128),
        refund_sent: bool,
    ) -> (r: Result<(), GameError>)
        requires
            old(self).wf(),
        ensures
            final(self).wf(),
            !has_role ==> r == Err::<(), GameError>(role_error(has_role)->0) && *final(self)
                == *old(self),
            has_role ==> match Self::reveal_error(old(self)@, as_player, reveal) {
                Some(e) => r == Err::<(), GameError>(e) && *final(self) == *old(self),
                None => if refund_sent {
                    r == Ok::<(), GameError>(()) && final(self)@ == old(self)@.revealed(
                        as_player,
                        reveal,
                    )
                } else {
                    r == Err::<(), GameError>(GameError::PartialContributionRefundFailed)
                        && *final(self) == *old(self)
                },
            },
    {
        match only_role(has_role) {
            Err(e) => {
                return Err(e);
            },
            Ok(()) => {},
        }
        self.reveal_round(as_player, reveal, refund_sent)
    }

    /// Accepts a payment into the game from a caller who holds the creator's
    /// role.
    pub fn fund_contract(&mut self, has_role: bool) -> (r: Result<(), GameError>)
        ensures
            *final(self) == *old(self),
            match role_error(has_role) {
                Some(e) => r == Err::<(), GameError>(e),
                None => r == Ok::<(), GameError>(()),
            },
    {
        only_role(has_role)
    }
}

} // verus!
