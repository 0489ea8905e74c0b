//! The session of a game: its players, its rounds, and the steps that every
//! game shares.

use crate::round::{lemma_commit_keeps_open, lemma_reveal_keeps_open, GameRound, RoundView};
use crate::access::{only_role, role_error};
use crate::types::{AccountId, GameConfigs, GameError, GameStatus, RoundStatus};
use vstd::prelude::*;

verus! {

/// After how many blocks a round is stale where the parameters name no
/// `round_timeout`.
pub const DEFAULT_ROUND_TIMEOUT: u32 = 10;

/// What a game asks a player to pay with a commitment.
#[derive(Clone, Copy, Debug, PartialEq, Eq)]
pub enum ContributionRule {
    /// Any amount.
    Free,
    /// This amount or more.
    AtLeast(u128),
    /// This amount and no other, so that the payment tells nothing of the
    /// choice that the commitment hides.
    Exactly(u128),
}

impl ContributionRule {
    /// The rule accepts a payment of `value`.
    pub open spec fn admits(self, value: u128) -> bool {
        match self {
            ContributionRule::Free => true,
            ContributionRule::AtLeast(least) => value >= least,
            ContributionRule::Exactly(amount) => value == amount,
        }
    }

    /// Tests `admits`.
    pub fn accepts(&self, value: u128) -> (ok: bool)
        ensures
            ok == self.admits(value),
    {
        match self {
            ContributionRule::Free => true,
            ContributionRule::AtLeast(least) => value >= *least,
            ContributionRule::Exactly(amount) => value == *amount,
        }
    }
}

/// What the resolution of a round leaves to be done: the payments to make, in
/// their order, and whether the game is over.
#[derive(Clone, Debug, PartialEq, Eq)]
pub struct Settlement {
    /// The round that was resolved.
    pub round_id: u8,
    /// Who is to be paid how much.
    pub payouts: Vec<(AccountId, u128)>,
    /// What the players had paid into the round.
    pub total_contribution: u128,
    /// The game ended with this round: it is to be torn down.
    pub game_ended: bool,
}

/// The first `n` of `payouts` that did not arrive, in their order: those for
/// which `delivered` does not say that they did.
pub open spec fn unpaid(payouts: Seq<(AccountId, u128)>, delivered: Seq<bool>, n: nat) -> Seq<
    (AccountId, u128),
>
    decreases n,
{
    if n == 0 {
        Seq::empty()
    } else {
        let before = unpaid(payouts, delivered, (n - 1) as nat);
        if n - 1 < delivered.len() && delivered[n - 1] {
            before
        } else {
            before.push(payouts[n - 1])
        }
    }
}

impl Settlement {
    /// The payments that failed, given for each payment, in their order,
    /// whether it arrived. A payment that failed does not undo the round: it
    /// is reported, and the round stays resolved.
    pub fn undelivered(&self, delivered: &Vec<bool>) -> (failed: Vec<(AccountId, u128)>)
        ensures
            failed@ == unpaid(self.payouts@, delivered@, self.payouts@.len()),
    {
        let mut failed: Vec<(AccountId, u128)> = Vec::new();
        let mut i: usize = 0;
        while i < self.payouts.len()
            invariant
                i <= self.payouts.len(),
                failed@ == unpaid(self.payouts@, delivered@, i as nat),
            decreases self.payouts.len() - i,
        {
            if !(i < delivered.len() && delivered[i]) {
                failed.push(self.payouts[i]);
            }
            i += 1;
        }
        failed
    }
}

/// The state of one session of a game.
#[derive(Clone, Debug, PartialEq, Eq)]
pub struct Data {
    /// Who created the game, and receives what is left when it is torn down.
    pub created_by: AccountId,
    /// The players, in the order in which they joined.
    pub players: Vec<AccountId>,
    pub status: GameStatus,
    /// The rounds that were resolved, oldest first.
    pub rounds: Vec<GameRound>,
    /// The round that is being played.
    pub current_round: Option<GameRound>,
    /// The id that the next round will get.
    pub next_round_id: u8,
    /// The block in which the current round was opened.
    pub round_opened_at: u32,
    /// In the current round there have been as many commitments as players.
    pub all_committed: bool,
    pub configs: GameConfigs,
}

/// A session as a mathematical value.
pub struct SessionView {
    pub created_by: AccountId,
    pub players: Seq<AccountId>,
    pub status: GameStatus,
    pub rounds: Seq<RoundView>,
    pub current_round: Option<RoundView>,
    pub next_round_id: u8,
    pub round_opened_at: u32,
    pub all_committed: bool,
    pub configs: GameConfigs,
}

impl View for Data {
    type V = SessionView;

    open spec fn view(&self) -> SessionView {
        SessionView {
            created_by: self.created_by,
            players: self.players@,
            status: self.status,
            rounds: self.rounds@.map_values(|round: GameRound| round@),
            current_round: match self.current_round {
                Some(round) => Some(round@),
                None => None,
            },
            next_round_id: self.next_round_id,
            round_opened_at: self.round_opened_at,
            all_committed: self.all_committed,
            configs: self.configs,
        }
    }
}

impl SessionView {
    /// The session that `created_by` has just created.
    pub open spec fn created(created_by: AccountId, configs: GameConfigs) -> SessionView {
        SessionView {
            created_by,
            players: Seq::empty(),
            status: GameStatus::Ready,
            rounds: Seq::empty(),
            current_round: None,
            next_round_id: 1,
            round_opened_at: 0,
            all_committed: false,
            configs,
        }
    }

    /// The invariant of a session.
    /// - The parameters are valid.
    /// - There are at most `max_players` players, and none is there twice.
    /// - There is a current round exactly while the game is `OnGoing`; it is
    ///   open, and its id is the one before `next_round_id`.
    /// - The rounds played so far are resolved; their ids increase strictly,
    ///   and all lie below that of the current round and below `next_round_id`.
    /// - A game that is `Ready` has played nothing and will open round 1; a
    ///   game that has started has `min_players` players or more.
    pub open spec fn wf(self) -> bool {
        &&& self.configs.valid()
        &&& self.players.len() <= self.configs.max_players
        &&& self.players.no_duplicates()
        &&& (self.status == GameStatus::OnGoing <==> self.current_round is Some)
        &&& (self.status == GameStatus::Ready ==> self.next_round_id == 1 && self.rounds.len() == 0)
        &&& (self.status != GameStatus::Ready ==> self.players.len() >= self.configs.min_players)
        &&& self.next_round_id >= 1
        &&& (self.current_round is Some ==> self.current_round->0.open()
            && self.current_round->0.id + 1 == self.next_round_id)
        &&& forall|i: int| 0 <= i < self.rounds.len() ==> (#[trigger] self.rounds[i]).resolved()
        &&& forall|i: int, j: int|
            0 <= i < j < self.rounds.len() ==> (#[trigger] self.rounds[i]).id < (
            #[trigger] self.rounds[j]).id
        &&& forall|i: int|
            0 <= i < self.rounds.len() ==> (#[trigger] self.rounds[i]).id < self.next_round_id && (
            self.current_round is Some ==> self.rounds[i].id < self.current_round->0.id)
    }

    /// Why `player` cannot be taken in, if anything is in the way: the game
    /// must have room, and the player must not be in it already.
    pub open spec fn admit_error(self, player: AccountId) -> Option<GameError> {
        if self.players.len() >= self.configs.max_players {
            Some(GameError::MaxPlayersReached)
        } else if self.players.contains(player) {
            Some(GameError::PlayerAlreadyJoined)
        } else {
            None
        }
    }

    /// Why `caller` cannot enter `player` with `value` paid, if anything is in
    /// the way: players enter themselves, the game must admit the player, and
    /// the joining fee, where there is one, must be covered.
    pub open spec fn join_error(self, caller: AccountId, player: AccountId, value: u128) -> Option<
        GameError,
    > {
        if caller != player {
            Some(GameError::CallerMustMatchNewPlayer)
        } else if self.admit_error(player) is Some {
            self.admit_error(player)
        } else if self.configs.join_fee is Some && value < self.configs.join_fee->0 {
            Some(GameError::InsufficientJoiningFees)
        } else {
            None
        }
    }

    /// Why `player` cannot be added by a caller who holds the creator's role
    /// or not, if anything is in the way. A payment of `value` that comes with
    /// the call belongs to the player: it must have been passed on.
    pub open spec fn add_error(
        self,
        has_role: bool,
        player: AccountId,
        value: u128,
        forwarded: bool,
    ) -> Option<GameError> {
        if !has_role {
            role_error(has_role)
        } else if self.admit_error(player) is Some {
            self.admit_error(player)
        } else if value > 0 && !forwarded {
            Some(GameError::FailedToAddPlayer)
        } else {
            None
        }
    }

    /// The session after `player` has joined.
    pub open spec fn joined(self, player: AccountId) -> SessionView {
        SessionView { players: self.players.push(player), ..self }
    }

    /// Why the game cannot start, if anything is in the way.
    pub open spec fn start_error(self) -> Option<GameError> {
        if self.status != GameStatus::Ready {
            Some(GameError::InvalidGameState)
        } else if self.players.len() < self.configs.min_players {
            Some(GameError::NotEnoughPlayers)
        } else {
            None
        }
    }

    /// The session after the game has started in block `now`: the first
    /// round is open.
    pub open spec fn started(self, now: u32) -> SessionView {
        SessionView {
            status: GameStatus::OnGoing,
            current_round: Some(RoundView::fresh(self.next_round_id)),
            next_round_id: (self.next_round_id + 1) as u8,
            round_opened_at: now,
            all_committed: false,
            ..self
        }
    }

    /// Why `player` cannot commit and pay `value`, if anything is in the way.
    /// A payment that would take the round's total past what a `u128` holds is
    /// not accepted.
    pub open spec fn commit_error(
        self,
        player: AccountId,
        value: u128,
        rule: ContributionRule,
    ) -> Option<GameError> {
        if self.current_round is None {
            Some(GameError::NoCurrentRound)
        } else if self.current_round->0.committed(player) {
            Some(GameError::PlayerAlreadyCommitted)
        } else if !rule.admits(value) || self.current_round->0.total_contribution + value
            > u128::MAX {
            Some(GameError::InvalidRoundContribution)
        } else {
            None
        }
    }

    /// The session after `player` has committed to `commitment` and paid `value`.
    pub open spec fn committed(
        self,
        player: AccountId,
        commitment: crate::types::Hash,
        value: u128,
    ) -> SessionView {
        SessionView {
            current_round: Some(self.current_round->0.with_commit(player, commitment, value)),
            all_committed: self.all_committed || self.commit_completes(),
            ..self
        }
    }

    /// One more commitment makes as many commitments as there are players,
    /// for the first time in the current round.
    pub open spec fn commit_completes(self) -> bool {
        &&& self.current_round is Some
        &&& !self.all_committed
        &&& self.current_round->0.commits.len() + 1 == self.players.len()
    }

    /// Why `player` cannot reveal `reveal`, if anything is in the way.
    pub open spec fn reveal_error(self, player: AccountId, reveal: (u128, u128)) -> Option<
        GameError,
    > {
        if self.current_round is None {
            Some(GameError::NoCurrentRound)
        } else {
            self.current_round->0.reveal_error(player, reveal)
        }
    }

    /// The session after `player` has revealed `reveal`.
    pub open spec fn revealed(self, player: AccountId, reveal: (u128, u128)) -> SessionView {
        SessionView {
            current_round: Some(self.current_round->0.with_reveal(player, reveal)),
            ..self
        }
    }

    /// Why the current round cannot be resolved, if anything is in the way:
    /// there must be one, with as many reveals as there are players, and not
    /// resolved already.
    pub open spec fn completion_error(self) -> Option<GameError> {
        if self.current_round is None {
            Some(GameError::NoCurrentRound)
        } else if self.current_round->0.reveals.len() != self.players.len() {
            Some(GameError::NotAllPlayersRevealed)
        } else if self.current_round->0.status == RoundStatus::Ended {
            Some(GameError::InvalidRoundState)
        } else {
            None
        }
    }

    /// No round can follow the current one: `max_rounds` is set and the next
    /// id lies beyond it, or the ids have run out.
    pub open spec fn at_last_round(self) -> bool {
        ||| (self.configs.max_rounds is Some && self.next_round_id > self.configs.max_rounds->0)
        ||| self.next_round_id == u8::MAX
    }

    /// The session after the current round was resolved in block `now` with
    /// `reward` allotted: the round is `Ended` and joins the rounds played;
    /// then the game is `Ended` if that was the last round, and else the next
    /// round is open.
    pub open spec fn settled(self, reward: u128, now: u32) -> SessionView {
        let done = self.rounds.push(self.current_round->0.ended(reward));
        if self.at_last_round() {
            SessionView { status: GameStatus::Ended, rounds: done, current_round: None, ..self }
        } else {
            SessionView {
                rounds: done,
                current_round: Some(RoundView::fresh(self.next_round_id)),
                next_round_id: (self.next_round_id + 1) as u8,
                round_opened_at: now,
                all_committed: false,
                ..self
            }
        }
    }

    /// After how many blocks a round is stale.
    pub open spec fn timeout(self) -> u32 {
        match self.configs.round_timeout {
            Some(blocks) => blocks,
            None => DEFAULT_ROUND_TIMEOUT,
        }
    }

    /// In block `now` the current round is stale: `timeout` blocks or more
    /// have gone by since it was opened.
    pub open spec fn stale(self, now: u32) -> bool {
        now - self.round_opened_at >= self.timeout()
    }

    /// Why the current round cannot be closed by force in block `now`, if
    /// anything is in the way: the caller must hold the creator's role, there
    /// must be a round, and it must be stale.
    pub open spec fn force_error(self, has_role: bool, now: u32) -> Option<GameError> {
        if !has_role {
            role_error(has_role)
        } else if self.current_round is None {
            Some(GameError::NoCurrentRound)
        } else if !self.stale(now) {
            Some(GameError::RoundNotExpired)
        } else {
            None
        }
    }

    /// The session after the current round was closed with `reward` allotted
    /// and the game ended with it, whatever rounds were still to come.
    pub open spec fn cut_short(self, reward: u128) -> SessionView {
        SessionView {
            status: GameStatus::Ended,
            rounds: self.rounds.push(self.current_round->0.ended(reward)),
            current_round: None,
            ..self
        }
    }

    /// Why the game cannot be ended, if anything is in the way: it must be
    /// `OnGoing`, its last round played must be resolved, and the round opened
    /// after that one must not have begun.
    pub open spec fn end_error(self) -> Option<GameError> {
        if self.status != GameStatus::OnGoing {
            Some(GameError::InvalidGameState)
        } else if self.rounds.len() == 0 || self.current_round is None
            || self.current_round->0.status != RoundStatus::Ready {
            Some(GameError::InvalidRoundState)
        } else {
            None
        }
    }

    /// The session after the game was ended.
    pub open spec fn ended(self) -> SessionView {
        SessionView { status: GameStatus::Ended, current_round: None, ..self }
    }
}

/// One player more keeps the invariant, where the game admits the player.
pub proof fn lemma_joined_wf(session: SessionView, player: AccountId)
    requires
        session.wf(),
        session.admit_error(player) is None,
    ensures
        session.joined(player).wf(),
{
}

/// Starting the game keeps the invariant.
pub proof fn lemma_started_wf(session: SessionView, now: u32)
    requires
        session.wf(),
        session.start_error() is None,
    ensures
        session.started(now).wf(),
{
}

/// A commitment that nothing is in the way of keeps the invariant.
pub proof fn lemma_committed_wf(
    session: SessionView,
    player: AccountId,
    commitment: crate::types::Hash,
    value: u128,
    rule: ContributionRule,
)
    requires
        session.wf(),
        session.commit_error(player, value, rule) is None,
    ensures
        session.committed(player, commitment, value).wf(),
{
    lemma_commit_keeps_open(session.current_round->0, player, commitment, value);
}

/// A reveal that nothing is in the way of keeps the invariant.
pub proof fn lemma_revealed_wf(session: SessionView, player: AccountId, reveal: (u128, u128))
    requires
        session.wf(),
        session.reveal_error(player, reveal) is None,
    ensures
        session.revealed(player, reveal).wf(),
{
    lemma_reveal_keeps_open(session.current_round->0, player, reveal);
}

/// Resolving the current round keeps the invariant, whether the next round
/// is opened or the game ends, of itself or cut short.
pub proof fn lemma_settled_wf(session: SessionView, reward: u128, now: u32)
    requires
        session.wf(),
        session.current_round is Some,
    ensures
        session.settled(reward, now).wf(),
        session.cut_short(reward).wf(),
{
    let closed = session.current_round->0.ended(reward);
    let done = session.rounds.push(closed);
    assert forall|i: int| 0 <= i < done.len() implies (#[trigger] done[i]).resolved() by {
        if i < session.rounds.len() {
            assert(session.rounds[i].resolved());
        }
    }
    assert forall|i: int, j: int| 0 <= i < j < done.len() implies (#[trigger] done[i]).id < (
    #[trigger] done[j]).id by {
        if j < session.rounds.len() {
            assert(session.rounds[i].id < session.rounds[j].id);
        } else {
            assert(session.rounds[i].id < closed.id);
        }
    }
    assert forall|i: int| 0 <= i < done.len() implies (#[trigger] done[i]).id
        < session.next_round_id by {
        if i < session.rounds.len() {
            assert(session.rounds[i].id < session.next_round_id);
        }
    }
}

/// Ending the game between two rounds keeps the invariant.
pub proof fn lemma_ended_wf(session: SessionView)
    requires
        session.wf(),
        session.end_error() is None,
    ensures
        session.ended().wf(),
{
    assert forall|i: int| 0 <= i < session.rounds.len() implies (#[trigger] session.rounds[i]).id
        < session.next_round_id by {}
}

/// Tells whether `who` is among `accounts`.
pub fn contains_account(accounts: &Vec<AccountId>, who: AccountId) -> (yes: bool)
    ensures
        yes == accounts@.contains(who),
{
    let mut i: usize = 0;
    while i < accounts.len()
        invariant
            i <= accounts.len(),
            forall|j: int| 0 <= j < i ==> accounts@[j] != who,
        decreases accounts.len() - i,
    {
        if accounts[i] == who {
            return true;
        }
        i += 1;
    }
    false
}

/// Tells whether no account is there twice.
pub fn accounts_distinct(accounts: &Vec<AccountId>) -> (ok: bool)
    ensures
        ok == accounts@.no_duplicates(),
{
    let mut j: usize = 0;
    while j < accounts.len()
        invariant
            j <= accounts.len(),
            forall|a: int, b: int| 0 <= a < b < j ==> accounts@[a] != accounts@[b],
        decreases accounts.len() - j,
    {
        let mut i: usize = 0;
        while i < j
            invariant
                i <= j < accounts.len(),
                forall|a: int| 0 <= a < i ==> accounts@[a] != accounts@[j as int],
            decreases j - i,
        {
            if accounts[i] == accounts[j] {
                assert(accounts@[i as int] == accounts@[j as int]);
                return false;
            }
            i += 1;
        }
        j += 1;
    }
    assert forall|a: int, b: int|
        0 <= a < accounts@.len() && 0 <= b < accounts@.len() && a != b implies accounts@[a]
        != accounts@[b] by {
        if a < b {
            assert(accounts@[a] != accounts@[b]);
        } else {
            assert(accounts@[b] != accounts@[a]);
        }
    }
    true
}

impl Data {
    /// The invariant of the session.
    pub open spec fn wf(&self) -> bool {
        self@.wf()
    }

    /// Tests the invariant of the session.
    pub fn is_wf(&self) -> (ok: bool)
        ensures
            ok == self.wf(),
    {
        if !self.configs.is_valid() || self.players.len() > self.configs.max_players as usize
            || !accounts_distinct(&self.players) {
            return false;
        }
        if (self.status == GameStatus::OnGoing) != self.current_round.is_some() {
            return false;
        }
        if self.status == GameStatus::Ready && (self.next_round_id != 1 || self.rounds.len() != 0) {
            return false;
        }
        if self.status != GameStatus::Ready && self.players.len()
            < self.configs.min_players as usize {
            return false;
        }
        if self.next_round_id < 1 {
            return false;
        }
        // every round played has an id below this one
        let ceiling: u8 = match &self.current_round {
            Some(round) => {
                if !round.is_open() || round.id == u8::MAX || round.id + 1 != self.next_round_id {
                    return false;
                }
                round.id
            },
            None => self.next_round_id,
        };
        let mut i: usize = 0;
        while i < self.rounds.len()
            invariant
                i <= self.rounds.len(),
                self@.rounds.len() == self.rounds.len(),
                self@.configs.valid(),
                self@.players.len() <= self@.configs.max_players,
                self@.players.no_duplicates(),
                self@.status == GameStatus::OnGoing <==> self@.current_round is Some,
                self@.status == GameStatus::Ready ==> self@.next_round_id == 1 && self@.rounds.len()
                    == 0,
                self@.status != GameStatus::Ready ==> self@.players.len()
                    >= self@.configs.min_players,
                self@.next_round_id >= 1,
                self@.current_round is Some ==> self@.current_round->0.open()
                    && self@.current_round->0.id + 1 == self@.next_round_id && ceiling
                    == self@.current_round->0.id,
                self@.current_round is None ==> ceiling == self@.next_round_id,
                forall|k: int| 0 <= k < i ==> (#[trigger] self@.rounds[k]).resolved(),
                forall|a: int, b: int|
                    0 <= a < b < i ==> (#[trigger] self@.rounds[a]).id < (
                    #[trigger] self@.rounds[b]).id,
                forall|k: int| 0 <= k < i ==> (#[trigger] self@.rounds[k]).id < ceiling,
            decreases self.rounds.len() - i,
        {
            assert(self@.rounds[i as int] == self.rounds@[i as int]@);
            if !self.rounds[i].is_resolved() {
                assert(!self@.rounds[i as int].resolved());
                return false;
            }
            if self.rounds[i].id >= ceiling {
                assert(self@.rounds[i as int].id >= ceiling);
                return false;
            }
            if i > 0 {
                assert(self@.rounds[i - 1] == self.rounds@[i - 1]@);
                if self.rounds[i - 1].id >= self.rounds[i].id {
                    assert(self@.rounds[i - 1].id >= self@.rounds[i as int].id);
                    return false;
                }
            }
            i += 1;
        }
        true
    }

    /// A new session.
    pub fn new(created_by: AccountId, configs: GameConfigs) -> (data: Data)
        requires
            configs.valid(),
        ensures
            data.wf(),
            data@ == SessionView::created(created_by, configs),
    {
        let data = Data {
            created_by,
            players: Vec::new(),
            status: GameStatus::Ready,
            rounds: Vec::new(),
            current_round: None,
            next_round_id: 1,
            round_opened_at: 0,
            all_committed: false,
            configs,
        };
        assert(data@.rounds =~= Seq::<RoundView>::empty());
        assert(data@ =~= SessionView::created(created_by, configs));
        data
    }

    /// Decides whether `player` can be taken in, and says why not.
    pub fn check_admit(&self, player: AccountId) -> (r: Result<(), GameError>)
        ensures
            match self@.admit_error(player) {
                Some(e) => r == Err::<(), GameError>(e),
                None => r == Ok::<(), GameError>(()),
            },
    {
        if self.players.len() >= self.configs.max_players as usize {
            Err(GameError::MaxPlayersReached)
        } else if contains_account(&self.players, player) {
            Err(GameError::PlayerAlreadyJoined)
        } else {
            Ok(())
        }
    }

    /// Enters `player`, who must be the caller, with `value` paid towards the
    /// joining fee. Returns the number of players.
    pub fn join(&mut self, caller: AccountId, player: AccountId, value: u128) -> (r: Result<
        u8,
        GameError,
    >)
        requires
            old(self).wf(),
        ensures
            final(self).wf(),
            match old(self)@.join_error(caller, player, value) {
                Some(e) => r == Err::<u8, GameError>(e) && *final(self) == *old(self),
                None => r == Ok::<u8, GameError>((old(self)@.players.len() + 1) as u8)
                    && final(self)@ == old(self)@.joined(player),
            },
    {
        if caller != player {
            return Err(GameError::CallerMustMatchNewPlayer);
        }
        match self.check_admit(player) {
            Err(e) => {
                return Err(e);
            },
            Ok(()) => {},
        }
        match self.configs.join_fee {
            Some(fee) => {
                if value < fee {
                    return Err(GameError::InsufficientJoiningFees);
                }
            },
            None => {},
        }
        self.add_player(player)
    }

    /// Enters `player`, whoever asks. Returns the number of players.
    pub fn add_player(&mut self, player: AccountId) -> (r: Result<u8, GameError>)
        requires
            old(self).wf(),
        ensures
            final(self).wf(),
            match old(self)@.admit_error(player) {
                Some(e) => r == Err::<u8, GameError>(e) && *final(self) == *old(self),
                None => r == Ok::<u8, GameError>((old(self)@.players.len() + 1) as u8)
                    && final(self)@ == old(self)@.joined(player),
            },
    {
        match self.check_admit(player) {
            Err(e) => {
                return Err(e);
            },
            Ok(()) => {},
        }
        self.players.push(player);
        proof {
            assert(self@ =~= old(self)@.joined(player));
            lemma_joined_wf(old(self)@, player);
        }
        Ok(self.players.len() as u8)
    }

    /// Enters `player` for a caller who holds the creator's role. A payment of
    /// `value` that comes with the call is the player's: `forwarded` says
    /// whether it was passed on. Returns the number of players.
    pub fn add_player_to_game(
        &mut self,
        has_role: bool,
        player: AccountId,
        value: u128,
        forwarded: bool,
    ) -> (r: Result<u8, GameError>)
        requires
            old(self).wf(),
        ensures
            final(self).wf(),
            match old(self)@.add_error(has_role, player, value, forwarded) {
                Some(e) => r == Err::<u8, GameError>(e) && *final(self) == *old(self),
                None => r == Ok::<u8, GameError>((old(self)@.players.len() + 1) as u8)
                    && final(self)@ == old(self)@.joined(player),
            },
    {
        match only_role(has_role) {
            Err(e) => {
                return Err(e);
            },
            Ok(()) => {},
        }
        match self.check_admit(player) {
            Err(e) => {
                return Err(e);
            },
            Ok(()) => {},
        }
        if value > 0 && !forwarded {
            return Err(GameError::FailedToAddPlayer);
        }
        self.add_player(player)
    }

    /// Starts the game in block `now`: opens the first round.
    pub fn start(&mut self, now: u32) -> (r: Result<(), GameError>)
        requires
            old(self).wf(),
        ensures
            final(self).wf(),
            match old(self)@.start_error() {
                Some(e) => r == Err::<(), GameError>(e) && *final(self) == *old(self),
                None => r == Ok::<(), GameError>(()) && final(self)@ == old(self)@.started(now),
            },
    {
        if self.status != GameStatus::Ready {
            return Err(GameError::InvalidGameState);
        }
        if self.players.len() < self.configs.min_players as usize {
            return Err(GameError::NotEnoughPlayers);
        }
        self.current_round = Some(GameRound::new(self.next_round_id));
        self.next_round_id = self.next_round_id + 1;
        self.status = GameStatus::OnGoing;
        self.round_opened_at = now;
        self.all_committed = false;
        proof {
            assert(self@ =~= old(self)@.started(now));
            lemma_started_wf(old(self)@, now);
        }
        Ok(())
    }

    /// Records the commitment of `player` with the payment of `value`. Returns
    /// whether there are now, for the first time in the round, as many
    /// commitments as players.
    pub fn record_commit(
        &mut self,
        player: AccountId,
        commitment: crate::types::Hash,
        value: u128,
        rule: ContributionRule,
    ) -> (r: Result<bool, GameError>)
        requires
            old(self).wf(),
        ensures
            final(self).wf(),
            match old(self)@.commit_error(player, value, rule) {
                Some(e) => r == Err::<bool, GameError>(e) && *final(self) == *old(self),
                None => r == Ok::<bool, GameError>(old(self)@.commit_completes()) && final(self)@
                    == old(self)@.committed(player, commitment, value),
            },
    {
        let players: usize = self.players.len();
        let met = match &mut self.current_round {
            None => {
                return Err(GameError::NoCurrentRound);
            },
            Some(round) => {
                if round.has_committed(player) {
                    return Err(GameError::PlayerAlreadyCommitted);
                }
                if !rule.accepts(value) || value > u128::MAX - round.total_contribution {
                    return Err(GameError::InvalidRoundContribution);
                }
                round.status = RoundStatus::OnGoing;
                round.player_commits.push((player, commitment));
                round.player_contributions.push((player, value));
                round.total_contribution = round.total_contribution + value;
                round.player_commits.len() == players
            },
        };
        let first = met && !self.all_committed;
        if first {
            self.all_committed = true;
        }
        proof {
            let before = old(self)@.current_round->0;
            let after = self@.current_round->0;
            assert(after =~= before.with_commit(player, commitment, value));
            assert(self@ =~= old(self)@.committed(player, commitment, value));
            lemma_committed_wf(old(self)@, player, commitment, value, rule);
        }
        Ok(first)
    }

    /// Decides whether `player` may reveal `reveal`, and says why not.
    pub fn check_reveal(&self, player: AccountId, reveal: (u128, u128)) -> (r: Result<
        (),
        GameError,
    >)
        requires
            self.wf(),
        ensures
            match self@.reveal_error(player, reveal) {
                Some(e) => r == Err::<(), GameError>(e),
                None => r == Ok::<(), GameError>(()),
            },
    {
        match &self.current_round {
            None => Err(GameError::NoCurrentRound),
            Some(round) => round.check_reveal(player, reveal),
        }
    }

    /// Records what `player` reveals.
    pub fn record_reveal(&mut self, player: AccountId, reveal: (u128, u128)) -> (r: Result<
        (),
        GameError,
    >)
        requires
            old(self).wf(),
        ensures
            final(self).wf(),
            match old(self)@.reveal_error(player, reveal) {
                Some(e) => r == Err::<(), GameError>(e) && *final(self) == *old(self),
                None => r == Ok::<(), GameError>(()) && final(self)@ == old(self)@.revealed(
                    player,
                    reveal,
                ),
            },
    {
        match &mut self.current_round {
            None => {
                return Err(GameError::NoCurrentRound);
            },
            Some(round) => {
                match round.check_reveal(player, reveal) {
                    Err(e) => {
                        return Err(e);
                    },
                    Ok(()) => {},
                }
                round.player_reveals.push((player, reveal));
            },
        }
        proof {
            let before = old(self)@.current_round->0;
            let after = self@.current_round->0;
            assert(after =~= before.with_reveal(player, reveal));
            assert(self@ =~= old(self)@.revealed(player, reveal));
            lemma_revealed_wf(old(self)@, player, reveal);
        }
        Ok(())
    }

    /// Decides whether the current round can be resolved, and says why not.
    pub fn check_completion(&self) -> (r: Result<(), GameError>)
        ensures
            match self@.completion_error() {
                Some(e) => r == Err::<(), GameError>(e),
                None => r == Ok::<(), GameError>(()),
            },
    {
        match &self.current_round {
            None => Err(GameError::NoCurrentRound),
            Some(round) => {
                if round.player_reveals.len() != self.players.len() {
                    Err(GameError::NotAllPlayersRevealed)
                } else if round.status == RoundStatus::Ended {
                    Err(GameError::InvalidRoundState)
                } else {
                    Ok(())
                }
            },
        }
    }

    /// Tells whether no round can follow the current one.
    pub fn is_at_last_round(&self) -> (last: bool)
        ensures
            last == self@.at_last_round(),
    {
        if self.next_round_id == u8::MAX {
            return true;
        }
        match self.configs.max_rounds {
            Some(max_rounds) => self.next_round_id as u32 > max_rounds,
            None => false,
        }
    }

    /// Tells after how many blocks a round is stale.
    pub fn round_timeout(&self) -> (blocks: u32)
        ensures
            blocks == self@.timeout(),
    {
        match self.configs.round_timeout {
            Some(blocks) => blocks,
            None => DEFAULT_ROUND_TIMEOUT,
        }
    }

    /// Decides whether the current round can be closed by force in block
    /// `now`, and says why not.
    pub fn check_force(&self, has_role: bool, now: u32) -> (r: Result<(), GameError>)
        ensures
            match self@.force_error(has_role, now) {
                Some(e) => r == Err::<(), GameError>(e),
                None => r == Ok::<(), GameError>(()),
            },
    {
        match only_role(has_role) {
            Err(e) => {
                return Err(e);
            },
            Ok(()) => {},
        }
        if self.current_round.is_none() {
            return Err(GameError::NoCurrentRound);
        }
        if now < self.round_opened_at || now - self.round_opened_at < self.round_timeout() {
            return Err(GameError::RoundNotExpired);
        }
        Ok(())
    }

    /// Takes the current round out of play: marks it `Ended` with `reward`
    /// allotted and puts it with the rounds played. Returns its id and what
    /// had been paid into it.
    fn retire_round(&mut self, reward: u128) -> (r: (u8, u128))
        requires
            old(self).current_round is Some,
        ensures
            final(self)@ == (SessionView {
                rounds: old(self)@.rounds.push(old(self)@.current_round->0.ended(reward)),
                current_round: None,
                ..old(self)@
            }),
            r.0 == old(self)@.current_round->0.id,
            r.1 == old(self)@.current_round->0.total_contribution,
    {
        let mut round = self.current_round.take().unwrap();
        let ghost before = round@;
        round.status = RoundStatus::Ended;
        round.total_reward = reward;
        assert(round@ =~= before.ended(reward));
        let id = round.id;
        let paid_in = round.total_contribution;
        self.rounds.push(round);
        proof {
            assert(self@.rounds =~= old(self)@.rounds.push(before.ended(reward)));
        }
        (id, paid_in)
    }

    /// Closes the current round in block `now` with `reward` allotted, and
    /// opens the next round or ends the game. Returns the id of the round that
    /// was closed, what had been paid into it, and whether the game has ended.
    pub fn close_round(&mut self, reward: u128, now: u32) -> (r: (u8, u128, bool))
        requires
            old(self).wf(),
            old(self).current_round is Some,
        ensures
            final(self).wf(),
            final(self)@ == old(self)@.settled(reward, now),
            r.0 == old(self)@.current_round->0.id,
            r.1 == old(self)@.current_round->0.total_contribution,
            r.2 == old(self)@.at_last_round(),
    {
        let last = self.is_at_last_round();
        let (id, paid_in) = self.retire_round(reward);
        if last {
            self.status = GameStatus::Ended;
        } else {
            self.current_round = Some(GameRound::new(self.next_round_id));
            self.next_round_id = self.next_round_id + 1;
            self.round_opened_at = now;
            self.all_committed = false;
        }
        proof {
            assert(self@ =~= old(self)@.settled(reward, now));
            lemma_settled_wf(old(self)@, reward, now);
        }
        (id, paid_in, last)
    }

    /// Closes the current round with `reward` allotted and ends the game with
    /// it. Returns the id of the round that was closed and what had been paid
    /// into it.
    pub fn close_game(&mut self, reward: u128) -> (r: (u8, u128))
        requires
            old(self).wf(),
            old(self).current_round is Some,
        ensures
            final(self).wf(),
            final(self)@ == old(self)@.cut_short(reward),
            r.0 == old(self)@.current_round->0.id,
            r.1 == old(self)@.current_round->0.total_contribution,
    {
        let r = self.retire_round(reward);
        self.status = GameStatus::Ended;
        proof {
            assert(self@ =~= old(self)@.cut_short(reward));
            lemma_settled_wf(old(self)@, reward, 0);
        }
        r
    }

    /// Ends the game between two rounds. Returns the creator, to whom what the
    /// game still holds is to go.
    pub fn end(&mut self) -> (r: Result<AccountId, GameError>)
        requires
            old(self).wf(),
        ensures
            final(self).wf(),
            match old(self)@.end_error() {
                Some(e) => r == Err::<AccountId, GameError>(e) && *final(self) == *old(self),
                None => r == Ok::<AccountId, GameError>(old(self).created_by) && final(self)@
                    == old(self)@.ended(),
            },
    {
        if self.status != GameStatus::OnGoing {
            return Err(GameError::InvalidGameState);
        }
        if self.rounds.len() == 0 {
            return Err(GameError::InvalidRoundState);
        }
        match &self.current_round {
            None => {
                return Err(GameError::InvalidRoundState);
            },
            Some(round) => {
                if round.status != RoundStatus::Ready {
                    return Err(GameError::InvalidRoundState);
                }
            },
        }
        self.status = GameStatus::Ended;
        self.current_round = None;
        proof {
            assert(self@ =~= old(self)@.ended());
            lemma_ended_wf(old(self)@);
        }
        Ok(self.created_by)
    }
}

} // verus!
