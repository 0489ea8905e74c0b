//! The Dictator game.

use crate::access::{only_role, role_error};
use crate::data::{ContributionRule, Data, SessionView, Settlement};
use crate::round::{copy_of, lemma_total_added, total_of, GameRound};
use crate::types::{AccountId, GameConfigs, GameError, GameStatus, RandomReadErr};
use vstd::prelude::*;

verus! {

/// The number that the first four bytes of a random value spell,
/// little-endian.
pub open spec fn draw(random: [u8; 32]) -> nat {
    (random[0] as nat) + (random[1] as nat) * 0x100 + (random[2] as nat) * 0x1_0000 + (
    random[3] as nat) * 0x100_0000
}

/// Which of `count` players a random value picks, counted from 0.
pub open spec fn pick(random: [u8; 32], count: nat) -> int
    recommends
        count > 0,
{
    (draw(random) % count) as int
}

/// Computes `pick`.
pub fn pick_index(random: &[u8; 32], count: usize) -> (index: usize)
    requires
        count > 0,
    ensures
        index == pick(*random, count as nat),
        index < count,
{
    let drawn: u32 = (random[0] as u32) + (random[1] as u32) * 0x100 + (random[2] as u32)
        * 0x1_0000 + (random[3] as u32) * 0x100_0000;
    (drawn as usize) % count
}

/// The payments that resolve a round: the prize to each player who revealed,
/// in the order of the reveals.
pub open spec fn shares(reveals: Seq<(AccountId, (u128, u128))>, prize: u128) -> Seq<
    (AccountId, u128),
> {
    reveals.map_values(|entry: (AccountId, (u128, u128))| (entry.0, prize))
}

/// Computes the shares of the round and their sum, where the sum can be
/// written down.
pub fn allot(round: &GameRound, prize: u128) -> (r: Option<(Vec<(AccountId, u128)>, u128)>)
    ensures
        match r {
            Some((amounts, sum)) => amounts@ == shares(round@.reveals, prize) && sum == total_of(
                amounts@,
            ),
            None => total_of(shares(round@.reveals, prize)) > u128::MAX,
        },
{
    let ghost all = shares(round@.reveals, prize);
    let mut out: Vec<(AccountId, u128)> = Vec::new();
    let mut total: u128 = 0;
    let mut i: usize = 0;
    assert(all.take(0) =~= out@);
    while i < round.player_reveals.len()
        invariant
            i <= round.player_reveals.len(),
            all == shares(round@.reveals, prize),
            all.len() == round@.reveals.len(),
            out@ == all.take(i as int),
            total == total_of(out@),
        decreases round.player_reveals.len() - i,
    {
        let entry = round.player_reveals[i];
        proof {
            assert(all.take(i + 1) =~= all.take(i as int).push((entry.0, prize)));
            lemma_total_added(all.take(i as int), entry.0, prize);
        }
        total = match total.checked_add(prize) {
            Some(total) => total,
            None => {
                proof {
                    crate::round::lemma_total_of_prefix(all, i + 1);
                }
                return None;
            },
        };
        out.push((entry.0, prize));
        i += 1;
    }
    assert(all.take(i as int) =~= all);
    Some((out, total))
}

/// One game of Dictator. A player drawn at random, the dictator, reveals the
/// prize that every player receives out of what the game holds.
#[derive(Clone, Debug, PartialEq, Eq)]
pub struct Dictator {
    pub data: Data,
    /// What the source of randomness is asked with; set before the game starts.
    pub seed: Option<[u8; 32]>,
    /// The player who sets the prize.
    pub dictator: Option<AccountId>,
    /// The prize of the current round, once the dictator has revealed it.
    pub current_prize: Option<u128>,
}

/// A game of Dictator as a mathematical value.
pub struct DictatorView {
    pub session: SessionView,
    pub seed: Option<[u8; 32]>,
    pub dictator: Option<AccountId>,
    pub current_prize: Option<u128>,
}

impl View for Dictator {
    type V = DictatorView;

    open spec fn view(&self) -> DictatorView {
        DictatorView {
            session: self.data@,
            seed: self.seed,
            dictator: self.dictator,
            current_prize: self.current_prize,
        }
    }
}

impl DictatorView {
    /// The game that `creator` has just created.
    pub open spec fn created(creator: AccountId, configs: GameConfigs) -> DictatorView {
        DictatorView {
            session: SessionView::created(creator, configs),
            seed: None,
            dictator: None,
            current_prize: None,
        }
    }

    /// The invariant of the game: that of its session, and a game that is
    /// `OnGoing` has a dictator.
    pub open spec fn wf(self) -> bool {
        &&& self.session.wf()
        &&& (self.session.status == GameStatus::OnGoing ==> self.dictator is Some)
    }

    /// Why the source of randomness cannot be asked yet while the game holds
    /// `balance`, if anything is in the way: the game must be such that it
    /// can start, the least contribution must be set and the game must hold
    /// more than it, and the seed must be set.
    pub open spec fn seed_error(self, balance: u128) -> Option<GameError> {
        if self.session.start_error() is Some {
            self.session.start_error()
        } else if self.session.configs.min_round_contribution is None {
            Some(GameError::InvalidRoundContribution)
        } else if balance <= self.session.configs.min_round_contribution->0 {
            Some(GameError::EndownmentNotEnough)
        } else if self.seed is None {
            Some(GameError::SeedNotSet)
        } else {
            None
        }
    }

    /// Why the game cannot start, if anything is in the way. Beyond what is
    /// asked before the source of randomness is, the source must have
    /// answered, and there must be a player for it to pick.
    pub open spec fn start_error(
        self,
        balance: u128,
        random: Result<[u8; 32], RandomReadErr>,
    ) -> Option<GameError> {
        if self.seed_error(balance) is Some {
            self.seed_error(balance)
        } else if random is Err {
            Some(GameError::SeedNotSet)
        } else if self.session.players.len() == 0 {
            Some(GameError::NotEnoughPlayers)
        } else {
            None
        }
    }

    /// The game after it has started in block `now` with `random` drawn: the
    /// first round is open, and the player that `random` picks is the
    /// dictator.
    pub open spec fn started(self, random: [u8; 32], now: u32) -> DictatorView {
        DictatorView {
            session: self.session.started(now),
            dictator: Some(self.session.players[pick(random, self.session.players.len())]),
            current_prize: None,
            ..self
        }
    }

    /// Why `caller` cannot commit with `value`, if anything is in the way.
    pub open spec fn play_error(self, caller: AccountId, value: u128) -> Option<GameError> {
        if self.session.status != GameStatus::OnGoing {
            Some(GameError::InvalidGameState)
        } else {
            self.session.commit_error(caller, value, ContributionRule::Free)
        }
    }

    /// The game after `player` has committed to `commitment` and paid `value`.
    pub open spec fn committed(
        self,
        player: AccountId,
        commitment: crate::types::Hash,
        value: u128,
    ) -> DictatorView {
        DictatorView { session: self.session.committed(player, commitment, value), ..self }
    }

    /// Why `caller` cannot reveal `reveal` while the game holds `balance`, if
    /// anything is in the way. What the dictator reveals is the prize of each
    /// player: the game must hold as many prizes as there are players.
    pub open spec fn reveal_error(
        self,
        caller: AccountId,
        reveal: (u128, u128),
        balance: u128,
    ) -> Option<GameError> {
        if self.session.reveal_error(caller, reveal) is Some {
            self.session.reveal_error(caller, reveal)
        } else if self.dictator == Some(caller) && reveal.0 * self.session.players.len()
            > balance {
            Some(GameError::InvalidReveal)
        } else {
            None
        }
    }

    /// The game after `caller` has revealed `reveal`.
    pub open spec fn revealed(self, caller: AccountId, reveal: (u128, u128)) -> DictatorView {
        DictatorView {
            session: self.session.revealed(caller, reveal),
            current_prize: if self.dictator == Some(caller) {
                Some(reveal.0)
            } else {
                self.current_prize
            },
            ..self
        }
    }

    /// Why the round cannot be resolved, if anything is in the way. The
    /// dictator must have set the prize, and the prizes together must not
    /// leave the range of `u128`.
    pub open spec fn completion_error(self) -> Option<GameError> {
        if self.session.completion_error() is Some {
            self.session.completion_error()
        } else if self.current_prize is None {
            Some(GameError::EndowmentNotSet)
        } else if total_of(self.payouts()) > u128::MAX {
            Some(GameError::FailedToGetWinners)
        } else {
            None
        }
    }

    /// The payments that resolve the current round: the prize to each player
    /// who revealed.
    pub open spec fn payouts(self) -> Seq<(AccountId, u128)> {
        shares(self.session.current_round->0.reveals, self.current_prize->0)
    }

    /// The game after the current round was resolved in block `now`: the next
    /// round, if there is one, has no prize yet.
    pub open spec fn settled(self, now: u32) -> DictatorView {
        DictatorView {
            session: self.session.settled(total_of(self.payouts()) as u128, now),
            current_prize: None,
            ..self
        }
    }

    /// The payments that close the current round by force: the prize to each
    /// player who revealed, and nothing where the dictator has set no prize.
    pub open spec fn forced_payouts(self) -> Seq<(AccountId, u128)> {
        if self.current_prize is Some {
            self.payouts()
        } else {
            Seq::empty()
        }
    }

    /// Why the round cannot be closed by force in block `now`, if anything
    /// is in the way.
    pub open spec fn force_error(self, has_role: bool, now: u32) -> Option<GameError> {
        if self.session.force_error(has_role, now) is Some {
            self.session.force_error(has_role, now)
        } else if total_of(self.forced_payouts()) > u128::MAX {
            Some(GameError::FailedToGetWinners)
        } else {
            None
        }
    }

    /// Why a payment of `value` into the game is not accepted, if anything is
    /// in the way: it must come from a caller who holds the creator's role,
    /// and be more than the least contribution, which must be set.
    pub open spec fn fund_error(self, has_role: bool, value: u128) -> Option<GameError> {
        if !has_role {
            role_error(has_role)
        } else if self.session.configs.min_round_contribution is None {
            Some(GameError::InvalidRoundContribution)
        } else if value <= self.session.configs.min_round_contribution->0 {
            Some(GameError::EndownmentNotEnough)
        } else {
            None
        }
    }
}

impl Dictator {
    /// The invariant of the game.
    pub open spec fn wf(&self) -> bool {
        self@.wf()
    }

    /// Tests the invariant of the game.
    pub fn is_wf(&self) -> (ok: bool)
        ensures
            ok == self.wf(),
    {
        self.data.is_wf() && (self.data.status != GameStatus::OnGoing || self.dictator.is_some())
    }

    /// The parameters of a game of one round for two players.
    pub open spec fn default_configs() -> GameConfigs {
        GameConfigs {
            max_players: 2,
            min_players: 2,
            min_round_contribution: Some(100_000u128),
            max_round_contribution: Some(1_000_000u128),
            round_reward_multiplier: None,
            post_round_actions: false,
            round_timeout: None,
            max_rounds: Some(1u32),
            join_fee: None,
            is_rounds_based: false,
        }
    }

    /// A new game with these parameters, created by `creator`.
    pub fn new(configs: GameConfigs, creator: AccountId) -> (game: Dictator)
        requires
            configs.valid(),
        ensures
            game.wf(),
            game@ == DictatorView::created(creator, configs),
    {
        Dictator {
            data: Data::new(creator, configs),
            seed: None,
            dictator: None,
            current_prize: None,
        }
    }

    /// A new game of one round for two players, created by `creator`.
    pub fn default(creator: AccountId) -> (game: Dictator)
        ensures
            game.wf(),
            game@ == DictatorView::created(creator, Self::default_configs()),
    {
        Self::new(
            GameConfigs {
                max_players: 2,
                min_players: 2,
                min_round_contribution: Some(100_000),
                max_round_contribution: Some(1_000_000),
                round_reward_multiplier: None,
                post_round_actions: false,
                round_timeout: None,
                max_rounds: Some(1),
                join_fee: None,
                is_rounds_based: false,
            },
            creator,
        )
    }

    /// Sets what the source of randomness will be asked with, for a caller
    /// who holds the creator's role. Returns the seed.
    pub fn set_random_seed(&mut self, has_role: bool, seed: [u8; 32]) -> (r: Result<
        [u8; 32],
        GameError,
    >)
        requires
            old(self).wf(),
        ensures
            final(self).wf(),
            match role_error(has_role) {
                Some(e) => r == Err::<[u8; 32], GameError>(e) && *final(self) == *old(self),
                None => r == Ok::<[u8; 32], GameError>(seed) && final(self)@ == (DictatorView {
                    seed: Some(seed),
                    ..old(self)@
                }),
            },
    {
        match only_role(has_role) {
            Err(e) => {
                return Err(e);
            },
            Ok(()) => {},
        }
        self.seed = Some(seed);
        Ok(seed)
    }

    /// The parameters of the game.
    pub fn get_configs(&self) -> (configs: GameConfigs)
        ensures
            configs == self@.session.configs,
    {
        self.data.configs
    }

    /// The players, in the order in which they joined.
    pub fn get_players(&self) -> (players: Vec<AccountId>)
        ensures
            players@ == self@.session.players,
    {
        copy_of(&self.data.players)
    }

    /// The status of the game.
    pub fn get_status(&self) -> (status: GameStatus)
        ensures
            status == self@.session.status,
    {
        self.data.status
    }

    /// The round that is being played, if there is one.
    pub fn get_current_round(&self) -> (round: Option<GameRound>)
        ensures
            round is Some == self@.session.current_round is Some,
            round is Some ==> round->0@ == self@.session.current_round->0,
    {
        match &self.data.current_round {
            Some(round) => Some(round.duplicate()),
            None => None,
        }
    }

    /// Enters `player`, who must be the caller, with `value` paid towards the
    /// joining fee. Returns the number of players.
    pub fn join(&mut self, caller: AccountId, player: AccountId, value: u128) -> (r: Result<
        u8,
        GameError,
    >)
        requires
            old(self).wf(),
        ensures
            final(self).wf(),
            match old(self)@.session.join_error(caller, player, value) {
                Some(e) => r == Err::<u8, GameError>(e) && *final(self) == *old(self),
                None => r == Ok::<u8, GameError>((old(self)@.session.players.len() + 1) as u8)
                    && final(self)@ == (DictatorView {
                    session: old(self)@.session.joined(player),
                    ..old(self)@
                }),
            },
    {
        self.data.join(caller, player, value)
    }

    /// Decides whether the source of randomness is to be asked while the game
    /// holds `balance`. Returns the seed to ask it with.
    pub fn start_seed(&self, balance: u128) -> (r: Result<[u8; 32], GameError>)
        requires
            self.wf(),
        ensures
            match self@.seed_error(balance) {
                Some(e) => r == Err::<[u8; 32], GameError>(e),
                None => r == Ok::<[u8; 32], GameError>(self@.seed->0),
            },
    {
        if self.data.status != GameStatus::Ready {
            return Err(GameError::InvalidGameState);
        }
        if self.data.players.len() < self.data.configs.min_players as usize {
            return Err(GameError::NotEnoughPlayers);
        }
        match self.data.configs.min_round_contribution {
            None => {
                return Err(GameError::InvalidRoundContribution);
            },
            Some(least) => {
                if balance <= least {
                    return Err(GameError::EndownmentNotEnough);
                }
            },
        }
        match self.seed {
            Some(seed) => Ok(seed),
            None => Err(GameError::SeedNotSet),
        }
    }

    /// Starts the game in block `now` while it holds `balance`, the source of
    /// randomness having answered `random` when asked with the seed of
    /// `start_seed`: opens the first round and appoints the dictator.
    pub fn start_game(
        &mut self,
        balance: u128,
        random: Result<[u8; 32], RandomReadErr>,
        now: u32,
    ) -> (r: Result<(), GameError>)
        requires
            old(self).wf(),
        ensures
            final(self).wf(),
            match old(self)@.start_error(balance, random) {
                Some(e) => r == Err::<(), GameError>(e) && *final(self) == *old(self),
                None => r == Ok::<(), GameError>(()) && final(self)@ == old(self)@.started(
                    random->Ok_0,
                    now,
                ),
            },
    {
        match self.start_seed(balance) {
            Err(e) => {
                return Err(e);
            },
            Ok(_) => {},
        }
        let drawn = match random {
            Ok(drawn) => drawn,
            Err(_) => {
                return Err(GameError::SeedNotSet);
            },
        };
        if self.data.players.len() == 0 {
            return Err(GameError::NotEnoughPlayers);
        }
        let index = pick_index(&drawn, self.data.players.len());
        let dictator = self.data.players[index];
        match self.data.start(now) {
            Err(e) => {
                return Err(e);
            },
            Ok(()) => {},
        }
        self.dictator = Some(dictator);
        self.current_prize = None;
        Ok(())
    }

    /// Records the commitment of `caller`, who pays `value` into the round.
    /// Returns whether there are now, for the first time in the round, as
    /// many commitments as players.
    pub fn play_round(
        &mut self,
        caller: AccountId,
        commitment: crate::types::Hash,
        value: u128,
    ) -> (r: Result<bool, GameError>)
        requires
            old(self).wf(),
        ensures
            final(self).wf(),
            match old(self)@.play_error(caller, value) {
                Some(e) => r == Err::<bool, GameError>(e) && *final(self) == *old(self),
                None => r == Ok::<bool, GameError>(old(self)@.session.commit_completes())
                    && final(self)@ == old(self)@.committed(caller, commitment, value),
            },
    {
        if self.data.status != GameStatus::OnGoing {
            return Err(GameError::InvalidGameState);
        }
        self.data.record_commit(caller, commitment, value, ContributionRule::Free)
    }

    /// Records what `caller` reveals while the game holds `balance`. What the
    /// dictator reveals becomes the prize of the round.
    pub fn reveal_round(&mut self, caller: AccountId, reveal: (u128, u128), balance: u128) -> (r:
        Result<(), GameError>)
        requires
            old(self).wf(),
        ensures
            final(self).wf(),
            match old(self)@.reveal_error(caller, reveal, balance) {
                Some(e) => r == Err::<(), GameError>(e) && *final(self) == *old(self),
                None => r == Ok::<(), GameError>(()) && final(self)@ == old(self)@.revealed(
                    caller,
                    reveal,
                ),
            },
    {
        match self.data.check_reveal(caller, reveal) {
            Err(e) => {
                return Err(e);
            },
            Ok(()) => {},
        }
        let rules = match self.dictator {
            Some(dictator) => dictator == caller,
            None => false,
        };
        if rules {
            let count: u128 = self.data.players.len() as u128;
            match reveal.0.checked_mul(count) {
                Some(needed) => {
                    if needed > balance {
                        return Err(GameError::InvalidReveal);
                    }
                },
                None => {
                    return Err(GameError::InvalidReveal);
                },
            }
        }
        match self.data.record_reveal(caller, reveal) {
            Err(e) => {
                return Err(e);
            },
            Ok(()) => {},
        }
        if rules {
            self.current_prize = Some(reveal.0);
        }
        Ok(())
    }

    /// The payments that close the current round by force, and their sum.
    fn forced_winners(&self) -> (r: Option<(Vec<(AccountId, u128)>, u128)>)
        requires
            self@.session.current_round is Some,
        ensures
            match r {
                Some((amounts, sum)) => amounts@ == self@.forced_payouts() && sum == total_of(
                    amounts@,
                ),
                None => total_of(self@.forced_payouts()) > u128::MAX,
            },
    {
        match (self.current_prize, &self.data.current_round) {
            (Some(prize), Some(round)) => allot(round, prize),
            _ => {
                let nothing: Vec<(AccountId, u128)> = Vec::new();
                assert(nothing@ =~= self@.forced_payouts());
                Some((nothing, 0))
            },
        }
    }

    /// Resolves the round in block `now`, once every player has revealed:
    /// says who is to be paid what, closes the round, and opens the next round
    /// or ends the game.
    pub fn complete_round(&mut self, now: u32) -> (r: Result<Settlement, GameError>)
        requires
            old(self).wf(),
        ensures
            final(self).wf(),
            match old(self)@.completion_error() {
                Some(e) => r == Err::<Settlement, GameError>(e) && *final(self) == *old(self),
                None => {
                    let round = old(self)@.session.current_round->0;
                    &&& r is Ok
                    &&& r->Ok_0.round_id == round.id
                    &&& r->Ok_0.payouts@ == old(self)@.payouts()
                    &&& r->Ok_0.total_contribution == round.total_contribution
                    &&& r->Ok_0.game_ended == old(self)@.session.at_last_round()
                    &&& final(self)@ == old(self)@.settled(now)
                },
            },
    {
        match self.data.check_completion() {
            Err(e) => {
                return Err(e);
            },
            Ok(()) => {},
        }
        if self.current_prize.is_none() {
            return Err(GameError::EndowmentNotSet);
        }
        let (payouts, reward) = match self.forced_winners() {
            Some(allotted) => allotted,
            None => {
                return Err(GameError::FailedToGetWinners);
            },
        };
        let (round_id, total_contribution, game_ended) = self.data.close_round(reward, now);
        self.current_prize = None;
        Ok(Settlement { round_id, payouts, total_contribution, game_ended })
    }

    /// Closes a stale round in block `now` for a caller who holds the
    /// creator's role, whoever has revealed by then. Those who revealed get
    /// the prize, if the dictator has set one; what was paid in stays with the
    /// game. Then the next round is opened, or the game ends.
    pub fn force_complete_round(&mut self, has_role: bool, now: u32) -> (r: Result<
        Settlement,
        GameError,
    >)
        requires
            old(self).wf(),
        ensures
            final(self).wf(),
            match old(self)@.force_error(has_role, now) {
                Some(e) => r == Err::<Settlement, GameError>(e) && *final(self) == *old(self),
                None => {
                    let round = old(self)@.session.current_round->0;
                    &&& r is Ok
                    &&& r->Ok_0.round_id == round.id
                    &&& r->Ok_0.payouts@ == old(self)@.forced_payouts()
                    &&& r->Ok_0.total_contribution == round.total_contribution
                    &&& r->Ok_0.game_ended == old(self)@.session.at_last_round()
                    &&& final(self)@ == (DictatorView {
                        session: old(self)@.session.settled(
                            total_of(old(self)@.forced_payouts()) as u128,
                            now,
                        ),
                        current_prize: None,
                        ..old(self)@
                    })
                },
            },
    {
        match self.data.check_force(has_role, now) {
            Err(e) => {
                return Err(e);
            },
            Ok(()) => {},
        }
        let (payouts, reward) = match self.forced_winners() {
            Some(allotted) => allotted,
            None => {
                return Err(GameError::FailedToGetWinners);
            },
        };
        let (round_id, total_contribution, game_ended) = self.data.close_round(reward, now);
        self.current_prize = None;
        Ok(Settlement { round_id, payouts, total_contribution, game_ended })
    }

    /// Closes a stale round by force as `force_complete_round` does, and ends
    /// the game with it, whatever rounds were still to come.
    pub fn force_end_game(&mut self, has_role: bool, now: u32) -> (r: Result<
        Settlement,
        GameError,
    >)
        requires
            old(self).wf(),
        ensures
            final(self).wf(),
            match old(self)@.force_error(has_role, now) {
                Some(e) => r == Err::<Settlement, GameError>(e) && *final(self) == *old(self),
                None => {
                    let round = old(self)@.session.current_round->0;
                    &&& r is Ok
                    &&& r->Ok_0.round_id == round.id
                    &&& r->Ok_0.payouts@ == old(self)@.forced_payouts()
                    &&& r->Ok_0.total_contribution == round.total_contribution
                    &&& r->Ok_0.game_ended
                    &&& final(self)@ == (DictatorView {
                        session: old(self)@.session.cut_short(
                            total_of(old(self)@.forced_payouts()) as u128,
                        ),
                        current_prize: None,
                        ..old(self)@
                    })
                },
            },
    {
        match self.data.check_force(has_role, now) {
            Err(e) => {
                return Err(e);
            },
            Ok(()) => {},
        }
        let (payouts, reward) = match self.forced_winners() {
            Some(allotted) => allotted,
            None => {
                return Err(GameError::FailedToGetWinners);
            },
        };
        let (round_id, total_contribution) = self.data.close_game(reward);
        self.current_prize = None;
        Ok(Settlement { round_id, payouts, total_contribution, game_ended: true })
    }

    /// Ends the game between two rounds. Returns the creator, to whom what the
    /// game still holds is to go.
    pub fn end_game(&mut self) -> (r: Result<AccountId, GameError>)
        requires
            old(self).wf(),
        ensures
            final(self).wf(),
            match old(self)@.session.end_error() {
                Some(e) => r == Err::<AccountId, GameError>(e) && *final(self) == *old(self),
                None => r == Ok::<AccountId, GameError>(old(self)@.session.created_by)
                    && final(self)@ == (DictatorView {
                    session: old(self)@.session.ended(),
                    ..old(self)@
                }),
            },
    {
        self.data.end()
    }

    /// Enters `player` for a caller who holds the creator's role. A payment of
    /// `value` that comes with the call is the player's: `forwarded` says
    /// whether it was passed on. Returns the number of players.
    pub fn add_player_to_game(
        &mut self,
        has_role: bool,
        player: AccountId,
        value: u128,
        forwarded: bool,
    ) -> (r: Result<u8, GameError>)
        requires
            old(self).wf(),
        ensures
            final(self).wf(),
            match old(self)@.session.add_error(has_role, player, value, forwarded) {
                Some(e) => r == Err::<u8, GameError>(e) && *final(self) == *old(self),
                None => r == Ok::<u8, GameError>((old(self)@.session.players.len() + 1) as u8)
                    && final(self)@ == (DictatorView {
                    session: old(self)@.session.joined(player),
                    ..old(self)@
                }),
            },
    {
        self.data.add_player_to_game(has_role, player, value, forwarded)
    }

    /// Records a commitment for `as_player`, made by a caller who holds the
    /// creator's role, with `value` paid into the round. Returns whether
    /// there are now, for the first time in the round, as many commitments as
    /// players.
    pub fn play_round_as_player(
        &mut self,
        has_role: bool,
        as_player: AccountId,
        commitment: crate::types::Hash,
        value: u128,
    ) -> (r: Result<bool, GameError>)
        requires
            old(self).wf(),
        ensures
            final(self).wf(),
            !has_role ==> r == Err::<bool, GameError>(role_error(has_role)->0) && *final(self)
                == *old(self),
            has_role ==> match old(self)@.play_error(as_player, value) {
                Some(e) => r == Err::<bool, GameError>(e) && *final(self) == *old(self),
                None => r == Ok::<bool, GameError>(old(self)@.session.commit_completes())
                    && final(self)@ == old(self)@.committed(as_player, commitment, value),
            },
    {
        match only_role(has_role) {
            Err(e) => {
                return Err(e);
            },
            Ok(()) => {},
        }
        self.play_round(as_player, commitment, value)
    }

    /// Records what is revealed for `as_player` by a caller who holds the
    /// creator's role, while the game holds `balance`.
    pub fn reveal_round_as_player(
        &mut self,
        has_role: bool,
        as_player: AccountId,
        reveal: (u128, u128),
        balance: u128,
    ) -> (r: Result<(), GameError>)
        requires
            old(self).wf(),
        ensures
            final(self).wf(),
            !has_role ==> r == Err::<(), GameError>(role_error(has_role)->0) && *final(self)
                == *old(self),
            has_role ==> match old(self)@.reveal_error(as_player, reveal, balance) {
                Some(e) => r == Err::<(), GameError>(e) && *final(self) == *old(self),
                None => r == Ok::<(), GameError>(()) && final(self)@ == old(self)@.revealed(
                    as_player,
                    reveal,
                ),
            },
    {
        match only_role(has_role) {
            Err(e) => {
                return Err(e);
            },
            Ok(()) => {},
        }
        self.reveal_round(as_player, reveal, balance)
    }

    /// Accepts a payment of `value` into the game, out of which the prizes
    /// are paid, from a caller who holds the creator's role.
    pub fn fund_contract(&mut self, has_role: bool, value: u128) -> (r: Result<(), GameError>)
        ensures
            *final(self) == *old(self),
            match old(self)@.fund_error(has_role, value) {
                Some(e) => r == Err::<(), GameError>(e),
                None => r == Ok::<(), GameError>(()),
            },
    {
        match only_role(has_role) {
            Err(e) => {
                return Err(e);
            },
            Ok(()) => {},
        }
        match self.data.configs.min_round_contribution {
            None => Err(GameError::InvalidRoundContribution),
            Some(least) => {
                if value <= least {
                    Err(GameError::EndownmentNotEnough)
                } else {
                    Ok(())
                }
            },
        }
    }
}

} // verus!
