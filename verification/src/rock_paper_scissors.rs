//! Rock-Paper-Scissors.

use crate::commitment::{commit, opens};
use crate::data::{ContributionRule, Data, SessionView, Settlement};
use crate::round::{
    copy_of, entry_of, find_entry, has_entry, lemma_entry_at, lemma_total_added, total_of,
    GameRound, RoundView,
};
use crate::types::{AccountId, GameConfigs, GameError, GameStatus};
use vstd::prelude::*;

verus! {

/// How a duel ends for the one who revealed `first` against `second`:
/// 0 is a tie, 1 a win of the first, 2 a win of the second. Each choice beats
/// the one before it, and Rock beats Scissors.
pub open spec fn duel(first: u128, second: u128) -> int {
    (first as int - second as int) % 3
}

/// Computes `duel`.
pub fn duel_score(first: u128, second: u128) -> (score: u8)
    ensures
        score == duel(first, second),
{
    (((first % 3) + 3 - (second % 3)) % 3) as u8
}

/// The payments that resolve a round. The duel is between the first two
/// players who revealed: the one who wins it receives all that was paid into
/// the round. On a tie nobody is paid, and neither is anybody where fewer
/// than two players have revealed: what was paid in stays with the game.
pub open spec fn payouts(round: RoundView) -> Seq<(AccountId, u128)> {
    if round.reveals.len() >= 2 && duel(round.reveals[0].1.0, round.reveals[1].1.0) == 1 {
        seq![(round.reveals[0].0, round.total_contribution)]
    } else if round.reveals.len() >= 2 && duel(round.reveals[0].1.0, round.reveals[1].1.0) == 2 {
        seq![(round.reveals[1].0, round.total_contribution)]
    } else {
        Seq::empty()
    }
}

/// What the payments of a round come to: all that was paid into it where
/// somebody wins, and nothing where nobody does.
pub open spec fn reward(round: RoundView) -> u128 {
    if payouts(round).len() == 0 {
        0
    } else {
        round.total_contribution
    }
}

/// There is never more than one winner, and what the payments of a round
/// come to is never more than what was paid into it: resolving a round makes
/// no money.
pub proof fn lemma_payouts_within_the_pot(round: RoundView)
    ensures
        payouts(round).len() <= 1,
        total_of(payouts(round)) == reward(round),
        total_of(payouts(round)) <= round.total_contribution,
{
    let paid = payouts(round);
    if paid.len() == 1 {
        assert(paid.drop_last() =~= Seq::<(AccountId, u128)>::empty());
        assert(total_of(paid.drop_last()) == 0);
    }
}

/// To each player who revealed, in the order of the reveals, what that player
/// paid into the round.
pub open spec fn refunds(round: RoundView) -> Seq<(AccountId, u128)> {
    round.reveals.map_values(
        |entry: (AccountId, (u128, u128))| (entry.0, entry_of(round.contributions, entry.0)),
    )
}

/// The payments that close a round by force. Where two players or more have
/// revealed, the duel decides as it does when a round is resolved. Where
/// fewer have, there is no duel: whoever revealed gets back what that player
/// paid, and what the others paid stays with the game.
pub open spec fn forced_payouts(round: RoundView) -> Seq<(AccountId, u128)> {
    if round.reveals.len() >= 2 {
        payouts(round)
    } else {
        refunds(round)
    }
}

/// In a consistent round the contributions, like the commitments, are one to
/// a player, and whoever revealed has one.
pub proof fn lemma_revealers_contributed(round: RoundView)
    requires
        round.consistent(),
    ensures
        crate::round::one_entry_each(round.contributions),
        forall|i: int|
            0 <= i < round.reveals.len() ==> has_entry(
                round.contributions,
                (#[trigger] round.reveals[i]).0,
            ),
{
    assert forall|i: int, j: int| 0 <= i < j < round.contributions.len() implies (
    #[trigger] round.contributions[i]).0 != (#[trigger] round.contributions[j]).0 by {
        assert(round.commits[i].0 != round.commits[j].0);
    }
    assert forall|i: int| 0 <= i < round.reveals.len() implies has_entry(
        round.contributions,
        (#[trigger] round.reveals[i]).0,
    ) by {
        let who = round.reveals[i].0;
        assert(has_entry(round.commits, who));
        let k = choose|k: int|
            0 <= k < round.commits.len() && (#[trigger] round.commits[k]).0 == who;
        assert(round.contributions[k].0 == who);
    }
}

/// The accounts that have an entry.
pub open spec fn accounts_of<T>(entries: Seq<(AccountId, T)>) -> Set<AccountId> {
    Set::new(|who: AccountId| has_entry(entries, who))
}

/// The sum of the amounts of those entries whose account is among `who`.
pub open spec fn total_among(entries: Seq<(AccountId, u128)>, who: Set<AccountId>) -> nat
    decreases entries.len(),
{
    if entries.len() == 0 {
        0
    } else {
        total_among(entries.drop_last(), who) + if who.contains(entries.last().0) {
            entries.last().1 as nat
        } else {
            0
        }
    }
}

/// Nobody's entries sum to nothing.
pub proof fn lemma_total_among_nobody(entries: Seq<(AccountId, u128)>)
    ensures
        total_among(entries, Set::<AccountId>::empty()) == 0,
    decreases entries.len(),
{
    if entries.len() > 0 {
        lemma_total_among_nobody(entries.drop_last());
    }
}

/// The entries of some accounts sum to no more than all the entries.
pub proof fn lemma_total_among_at_most(entries: Seq<(AccountId, u128)>, who: Set<AccountId>)
    ensures
        total_among(entries, who) <= total_of(entries),
    decreases entries.len(),
{
    if entries.len() > 0 {
        lemma_total_among_at_most(entries.drop_last(), who);
    }
}

/// An account without an entry adds nothing to the sum.
pub proof fn lemma_total_among_stranger(
    entries: Seq<(AccountId, u128)>,
    who: Set<AccountId>,
    stranger: AccountId,
)
    requires
        !has_entry(entries, stranger),
    ensures
        total_among(entries, who.insert(stranger)) == total_among(entries, who),
    decreases entries.len(),
{
    if entries.len() > 0 {
        let front = entries.drop_last();
        assert(entries[entries.len() - 1].0 != stranger);
        assert forall|i: int| 0 <= i < front.len() implies (#[trigger] front[i]).0 != stranger by {
            assert(entries[i].0 != stranger);
        }
        lemma_total_among_stranger(front, who, stranger);
    }
}

/// An account with one entry adds the amount of that entry to the sum.
pub proof fn lemma_total_among_one_more(
    entries: Seq<(AccountId, u128)>,
    who: Set<AccountId>,
    one: AccountId,
)
    requires
        crate::round::one_entry_each(entries),
        has_entry(entries, one),
        !who.contains(one),
    ensures
        total_among(entries, who.insert(one)) == total_among(entries, who) + entry_of(entries, one),
    decreases entries.len(),
{
    let front = entries.drop_last();
    let last = entries.len() - 1;
    assert forall|i: int, j: int| 0 <= i < j < front.len() implies (#[trigger] front[i]).0 != (
    #[trigger] front[j]).0 by {
        assert(entries[i].0 != entries[j].0);
    }
    if entries[last].0 == one {
        lemma_entry_at(entries, last);
        assert forall|i: int| 0 <= i < front.len() implies (#[trigger] front[i]).0 != one by {
            assert(entries[i].0 != entries[last].0);
        }
        lemma_total_among_stranger(front, who, one);
    } else {
        let k = choose|k: int| 0 <= k < entries.len() && (#[trigger] entries[k]).0 == one;
        assert(front[k] == entries[k]);
        lemma_entry_at(entries, k);
        lemma_entry_at(front, k);
        lemma_total_among_one_more(front, who, one);
    }
}

/// The refunds of the first `n` players who revealed are the contributions of
/// those players.
pub proof fn lemma_refunds_are_contributions(round: RoundView, n: int)
    requires
        round.consistent(),
        0 <= n <= round.reveals.len(),
    ensures
        total_of(refunds(round).take(n)) == total_among(
            round.contributions,
            accounts_of(round.reveals.take(n)),
        ),
    decreases n,
{
    lemma_revealers_contributed(round);
    if n == 0 {
        assert(refunds(round).take(0) =~= Seq::<(AccountId, u128)>::empty());
        assert(accounts_of(round.reveals.take(0)) =~= Set::<AccountId>::empty());
        lemma_total_among_nobody(round.contributions);
    } else {
        lemma_refunds_are_contributions(round, n - 1);
        let one = round.reveals[n - 1].0;
        let before = accounts_of(round.reveals.take(n - 1));
        assert(!before.contains(one)) by {
            if has_entry(round.reveals.take(n - 1), one) {
                let k = choose|k: int|
                    0 <= k < round.reveals.take(n - 1).len() && (#[trigger] round.reveals.take(
                        n - 1,
                    )[k]).0 == one;
                assert(round.reveals[k].0 != round.reveals[n - 1].0);
            }
        }
        assert(accounts_of(round.reveals.take(n)) =~= before.insert(one)) by {
            assert forall|who: AccountId| #[trigger]
                accounts_of(round.reveals.take(n)).contains(who) == before.insert(one).contains(
                    who,
                ) by {
                if has_entry(round.reveals.take(n), who) {
                    let k = choose|k: int|
                        0 <= k < round.reveals.take(n).len() && (#[trigger] round.reveals.take(
                            n,
                        )[k]).0 == who;
                    if k < n - 1 {
                        assert(round.reveals.take(n - 1)[k].0 == who);
                    }
                }
                if has_entry(round.reveals.take(n - 1), who) {
                    let k = choose|k: int|
                        0 <= k < round.reveals.take(n - 1).len() && (#[trigger] round.reveals.take(
                            n - 1,
                        )[k]).0 == who;
                    assert(round.reveals.take(n)[k].0 == who);
                }
                if who == one {
                    assert(round.reveals.take(n)[n - 1].0 == who);
                }
            }
        }
        assert(has_entry(round.contributions, round.reveals[n - 1].0));
        lemma_total_among_one_more(round.contributions, before, one);
        assert(refunds(round).take(n) =~= refunds(round).take(n - 1).push(
            (one, entry_of(round.contributions, one)),
        ));
        lemma_total_added(refunds(round).take(n - 1), one, entry_of(round.contributions, one));
    }
}

/// What closes a round by force never comes to more than was paid into the
/// round: closing a round makes no money.
pub proof fn lemma_forced_payouts_within_the_pot(round: RoundView)
    requires
        round.consistent(),
    ensures
        total_of(refunds(round)) <= round.total_contribution,
        total_of(forced_payouts(round)) <= round.total_contribution,
{
    lemma_refunds_are_contributions(round, round.reveals.len() as int);
    assert(refunds(round).take(round.reveals.len() as int) =~= refunds(round));
    lemma_total_among_at_most(round.contributions, accounts_of(round.reveals));
    assert(round.reveals.take(round.reveals.len() as int) =~= round.reveals);
    lemma_payouts_within_the_pot(round);
}

/// Computes `refunds` and their sum.
pub fn refund_revealers(round: &GameRound) -> (r: (Vec<(AccountId, u128)>, u128))
    requires
        round@.consistent(),
    ensures
        r.0@ == refunds(round@),
        r.1 == total_of(r.0@),
{
    let ghost all = refunds(round@);
    let mut out: Vec<(AccountId, u128)> = Vec::new();
    let mut total: u128 = 0;
    let mut i: usize = 0;
    proof {
        lemma_revealers_contributed(round@);
        lemma_forced_payouts_within_the_pot(round@);
        assert(all.take(0) =~= out@);
    }
    while i < round.player_reveals.len()
        invariant
            i <= round.player_reveals.len(),
            round@.consistent(),
            crate::round::one_entry_each(round@.contributions),
            forall|k: int|
                0 <= k < round@.reveals.len() ==> has_entry(
                    round@.contributions,
                    (#[trigger] round@.reveals[k]).0,
                ),
            all == refunds(round@),
            all.len() == round@.reveals.len(),
            total_of(all) <= u128::MAX,
            out@ == all.take(i as int),
            total == total_of(out@),
        decreases round.player_reveals.len() - i,
    {
        let who = round.player_reveals[i].0;
        assert(has_entry(round@.contributions, round@.reveals[i as int].0));
        let at: usize = find_entry(&round.player_contributions, who).unwrap();
        let paid: u128 = round.player_contributions[at].1;
        proof {
            lemma_entry_at(round@.contributions, at as int);
            assert(all[i as int] == (who, paid));
            assert(all.take(i + 1) =~= all.take(i as int).push((who, paid)));
            lemma_total_added(all.take(i as int), who, paid);
            crate::round::lemma_total_of_prefix(all, i + 1);
        }
        total = total + paid;
        out.push((who, paid));
        i += 1;
    }
    assert(all.take(i as int) =~= all);
    (out, total)
}

/// One game of Rock-Paper-Scissors.
#[derive(Clone, Debug, PartialEq, Eq)]
pub struct RockPaperScissors {
    pub data: Data,
}

impl View for RockPaperScissors {
    type V = SessionView;

    open spec fn view(&self) -> SessionView {
        self.data@
    }
}

impl RockPaperScissors {
    /// The invariant of the game: that of its session.
    pub open spec fn wf(&self) -> bool {
        self.data.wf()
    }

    /// Tests the invariant of the game.
    pub fn is_wf(&self) -> (ok: bool)
        ensures
            ok == self.wf(),
    {
        self.data.is_wf()
    }

    /// What a player pays with a commitment: the least contribution of the
    /// parameters or more, and anything where they name none.
    pub open spec fn rule(configs: GameConfigs) -> ContributionRule {
        match configs.min_round_contribution {
            Some(least) => ContributionRule::AtLeast(least),
            None => ContributionRule::Free,
        }
    }

    /// The parameters of a game for two players who pay 1 or more a round.
    pub open spec fn default_configs() -> GameConfigs {
        GameConfigs {
            max_players: 2,
            min_players: 2,
            min_round_contribution: Some(1u128),
            max_round_contribution: Some(10000u128),
            round_reward_multiplier: None,
            post_round_actions: false,
            round_timeout: None,
            max_rounds: None,
            join_fee: None,
            is_rounds_based: false,
        }
    }

    /// Why `caller` cannot commit with `value`, if anything is in the way.
    pub open spec fn play_error(session: SessionView, caller: AccountId, value: u128) -> Option<
        GameError,
    > {
        if session.status != GameStatus::OnGoing {
            Some(GameError::InvalidGameState)
        } else {
            session.commit_error(caller, value, Self::rule(session.configs))
        }
    }

    /// Why `caller` cannot reveal `reveal`, if anything is in the way. The
    /// pair must open the commitment of the caller, and what it then reveals
    /// must be one of the three choices.
    pub open spec fn reveal_error(
        session: SessionView,
        caller: AccountId,
        reveal: (u128, u128),
    ) -> Option<GameError> {
        if session.reveal_error(caller, reveal) is Some {
            session.reveal_error(caller, reveal)
        } else if reveal.0 > 2 {
            Some(GameError::InvalidChoice)
        } else {
            None
        }
    }

    /// A new game with these parameters, created by `creator`.
    pub fn new(configs: GameConfigs, creator: AccountId) -> (game: RockPaperScissors)
        requires
            configs.valid(),
        ensures
            game.wf(),
            game@ == SessionView::created(creator, configs),
    {
        RockPaperScissors { data: Data::new(creator, configs) }
    }

    /// A new game for two players, created by `creator`.
    pub fn default(creator: AccountId) -> (game: RockPaperScissors)
        ensures
            game.wf(),
            game@ == SessionView::created(creator, Self::default_configs()),
    {
        Self::new(
            GameConfigs {
                max_players: 2,
                min_players: 2,
                min_round_contribution: Some(1),
                max_round_contribution: Some(10000),
                round_reward_multiplier: None,
                post_round_actions: false,
                round_timeout: None,
                max_rounds: None,
                join_fee: None,
                is_rounds_based: false,
            },
            creator,
        )
    }

    /// The commitment to `(input, nonce)`.
    pub fn hash_commitment(&self, input: u128, nonce: u128) -> (r: Result<
        crate::types::Hash,
        GameError,
    >)
        ensures
            r is Ok,
            opens(r->Ok_0, input, nonce),
    {
        Ok(commit(input, nonce))
    }

    /// The parameters of the game.
    pub fn get_configs(&self) -> (configs: GameConfigs)
        ensures
            configs == self@.configs,
    {
        self.data.configs
    }

    /// The players, in the order in which they joined.
    pub fn get_players(&self) -> (players: Vec<AccountId>)
        ensures
            players@ == self@.players,
    {
        copy_of(&self.data.players)
    }

    /// The status of the game.
    pub fn get_status(&self) -> (status: GameStatus)
        ensures
            status == self@.status,
    {
        self.data.status
    }

    /// The round that is being played, if there is one.
    pub fn get_current_round(&self) -> (round: Option<GameRound>)
        ensures
            round is Some == self@.current_round is Some,
            round is Some ==> round->0@ == self@.current_round->0,
    {
        match &self.data.current_round {
            Some(round) => Some(round.duplicate()),
            None => None,
        }
    }

    /// Enters `player`, who must be the caller, with `value` paid towards the
    /// joining fee. Returns the number of players.
    pub fn join(&mut self, caller: AccountId, player: AccountId, value: u128) -> (r: Result<
        u8,
        GameError,
    >)
        requires
            old(self).wf(),
        ensures
            final(self).wf(),
            match old(self)@.join_error(caller, player, value) {
                Some(e) => r == Err::<u8, GameError>(e) && *final(self) == *old(self),
                None => r == Ok::<u8, GameError>((old(self)@.players.len() + 1) as u8)
                    && final(self)@ == old(self)@.joined(player),
            },
    {
        self.data.join(caller, player, value)
    }

    /// Starts the game in block `now`: opens the first round.
    pub fn start_game(&mut self, now: u32) -> (r: Result<(), GameError>)
        requires
            old(self).wf(),
        ensures
            final(self).wf(),
            match old(self)@.start_error() {
                Some(e) => r == Err::<(), GameError>(e) && *final(self) == *old(self),
                None => r == Ok::<(), GameError>(()) && final(self)@ == old(self)@.started(now),
            },
    {
        self.data.start(now)
    }

    /// Records the commitment of `caller`, who pays `value` into the round.
    /// Returns whether there are now, for the first time in the round, as
    /// many commitments as players.
    pub fn play_round(
        &mut self,
        caller: AccountId,
        commitment: crate::types::Hash,
        value: u128,
    ) -> (r: Result<bool, GameError>)
        requires
            old(self).wf(),
        ensures
            final(self).wf(),
            match Self::play_error(old(self)@, caller, value) {
                Some(e) => r == Err::<bool, GameError>(e) && *final(self) == *old(self),
                None => r == Ok::<bool, GameError>(old(self)@.commit_completes()) && final(self)@
                    == old(self)@.committed(caller, commitment, value),
            },
    {
        if self.data.status != GameStatus::OnGoing {
            return Err(GameError::InvalidGameState);
        }
        let rule = match self.data.configs.min_round_contribution {
            Some(least) => ContributionRule::AtLeast(least),
            None => ContributionRule::Free,
        };
        self.data.record_commit(caller, commitment, value, rule)
    }

    /// Records the choice and the nonce that `caller` reveals.
    pub fn reveal_round(&mut self, caller: AccountId, reveal: (u128, u128)) -> (r: Result<
        (),
        GameError,
    >)
        requires
            old(self).wf(),
        ensures
            final(self).wf(),
            match Self::reveal_error(old(self)@, caller, reveal) {
                Some(e) => r == Err::<(), GameError>(e) && *final(self) == *old(self),
                None => r == Ok::<(), GameError>(()) && final(self)@ == old(self)@.revealed(
                    caller,
                    reveal,
                ),
            },
    {
        match self.data.check_reveal(caller, reveal) {
            Err(e) => {
                return Err(e);
            },
            Ok(()) => {},
        }
        if reveal.0 > 2 {
            return Err(GameError::InvalidChoice);
        }
        self.data.record_reveal(caller, reveal)
    }

    /// The payments that resolve `round`.
    pub fn get_winners(round: &GameRound) -> (winners: Vec<(AccountId, u128)>)
        ensures
            winners@ == payouts(round@),
    {
        let mut winners: Vec<(AccountId, u128)> = Vec::new();
        if round.player_reveals.len() >= 2 {
            let first = round.player_reveals[0];
            let second = round.player_reveals[1];
            let score = duel_score(first.1.0, second.1.0);
            if score == 1 {
                winners.push((first.0, round.total_contribution));
            } else if score == 2 {
                winners.push((second.0, round.total_contribution));
            }
        }
        assert(winners@ =~= payouts(round@));
        winners
    }

    /// The payments that resolve `round`, and what they come to.
    fn resolve(round: &GameRound) -> (r: (Vec<(AccountId, u128)>, u128))
        ensures
            r.0@ == payouts(round@),
            r.1 == reward(round@),
            r.1 == total_of(r.0@),
    {
        let winners = Self::get_winners(round);
        proof {
            lemma_payouts_within_the_pot(round@);
        }
        let sum: u128 = if winners.len() == 0 {
            0
        } else {
            round.total_contribution
        };
        (winners, sum)
    }

    /// Resolves the round in block `now`, once every player has revealed:
    /// says who is to be paid what, closes the round, and opens the next round
    /// or ends the game.
    pub fn complete_round(&mut self, now: u32) -> (r: Result<Settlement, GameError>)
        requires
            old(self).wf(),
        ensures
            final(self).wf(),
            match old(self)@.completion_error() {
                Some(e) => r == Err::<Settlement, GameError>(e) && *final(self) == *old(self),
                None => {
                    let round = old(self)@.current_round->0;
                    &&& r is Ok
                    &&& r->Ok_0.round_id == round.id
                    &&& r->Ok_0.payouts@ == payouts(round)
                    &&& r->Ok_0.total_contribution == round.total_contribution
                    &&& r->Ok_0.game_ended == old(self)@.at_last_round()
                    &&& final(self)@ == old(self)@.settled(reward(round), now)
                },
            },
    {
        match self.data.check_completion() {
            Err(e) => {
                return Err(e);
            },
            Ok(()) => {},
        }
        let (winners, sum) = Self::resolve(self.data.current_round.as_ref().unwrap());
        let (round_id, total_contribution, game_ended) = self.data.close_round(sum, now);
        Ok(Settlement { round_id, payouts: winners, total_contribution, game_ended })
    }

    /// The payments that close the current round by force, and their sum.
    fn forced_winners(&self) -> (r: (Vec<(AccountId, u128)>, u128))
        requires
            self.wf(),
            self@.current_round is Some,
        ensures
            r.0@ == forced_payouts(self@.current_round->0),
            r.1 == total_of(r.0@),
    {
        let round = self.data.current_round.as_ref().unwrap();
        if round.player_reveals.len() >= 2 {
            Self::resolve(round)
        } else {
            refund_revealers(round)
        }
    }

    /// Closes a stale round in block `now` for a caller who holds the
    /// creator's role, whoever has revealed by then: says who is to be paid
    /// what, closes the round, and opens the next round or ends the game.
    pub fn force_complete_round(&mut self, has_role: bool, now: u32) -> (r: Result<
        Settlement,
        GameError,
    >)
        requires
            old(self).wf(),
        ensures
            final(self).wf(),
            match old(self)@.force_error(has_role, now) {
                Some(e) => r == Err::<Settlement, GameError>(e) && *final(self) == *old(self),
                None => {
                    let round = old(self)@.current_round->0;
                    &&& r is Ok
                    &&& r->Ok_0.round_id == round.id
                    &&& r->Ok_0.payouts@ == forced_payouts(round)
                    &&& r->Ok_0.total_contribution == round.total_contribution
                    &&& r->Ok_0.game_ended == old(self)@.at_last_round()
                    &&& final(self)@ == old(self)@.settled(
                        total_of(forced_payouts(round)) as u128,
                        now,
                    )
                },
            },
    {
        match self.data.check_force(has_role, now) {
            Err(e) => {
                return Err(e);
            },
            Ok(()) => {},
        }
        let (payouts, reward) = self.forced_winners();
        let (round_id, total_contribution, game_ended) = self.data.close_round(reward, now);
        Ok(Settlement { round_id, payouts, total_contribution, game_ended })
    }

    /// Closes a stale round by force as `force_complete_round` does, and ends
    /// the game with it, whatever rounds were still to come.
    pub fn force_end_game(&mut self, has_role: bool, now: u32) -> (r: Result<
        Settlement,
        GameError,
    >)
        requires
            old(self).wf(),
        ensures
            final(self).wf(),
            match old(self)@.force_error(has_role, now) {
                Some(e) => r == Err::<Settlement, GameError>(e) && *final(self) == *old(self),
                None => {
                    let round = old(self)@.current_round->0;
                    &&& r is Ok
                    &&& r->Ok_0.round_id == round.id
                    &&& r->Ok_0.payouts@ == forced_payouts(round)
                    &&& r->Ok_0.total_contribution == round.total_contribution
                    &&& r->Ok_0.game_ended
                    &&& final(self)@ == old(self)@.cut_short(
                        total_of(forced_payouts(round)) as u128,
                    )
                },
            },
    {
        match self.data.check_force(has_role, now) {
            Err(e) => {
                return Err(e);
            },
            Ok(()) => {},
        }
        let (payouts, reward) = self.forced_winners();
        let (round_id, total_contribution) = self.data.close_game(reward);
        Ok(Settlement { round_id, payouts, total_contribution, game_ended: true })
    }

    /// Ends the game between two rounds. Returns the creator, to whom what the
    /// game still holds is to go.
    pub fn end_game(&mut self) -> (r: Result<AccountId, GameError>)
        requires
            old(self).wf(),
        ensures
            final(self).wf(),
            match old(self)@.end_error() {
                Some(e) => r == Err::<AccountId, GameError>(e) && *final(self) == *old(self),
                None => r == Ok::<AccountId, GameError>(old(self)@.created_by) && final(self)@
                    == old(self)@.ended(),
            },
    {
        self.data.end()
    }
}

} // verus!
