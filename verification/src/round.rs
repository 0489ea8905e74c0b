//! One round of a game: its commitments, its reveals and its contributions.

use crate::commitment::{opens, verify};
use crate::types::{AccountId, GameError, RoundStatus};
use vstd::prelude::*;

verus! {

/// Some entry of `entries` belongs to `who`.
pub open spec fn has_entry<T>(entries: Seq<(AccountId, T)>, who: AccountId) -> bool {
    exists|i: int| 0 <= i < entries.len() && (#[trigger] entries[i]).0 == who
}

/// What `who` has in `entries`, where `has_entry` holds.
pub open spec fn entry_of<T>(entries: Seq<(AccountId, T)>, who: AccountId) -> T {
    let i = choose|i: int| 0 <= i < entries.len() && (#[trigger] entries[i]).0 == who;
    entries[i].1
}

/// No account has two entries.
pub open spec fn one_entry_each<T>(entries: Seq<(AccountId, T)>) -> bool {
    forall|i: int, j: int|
        0 <= i < j < entries.len() ==> (#[trigger] entries[i]).0 != (#[trigger] entries[j]).0
}

/// The sum of the amounts of `entries`.
pub open spec fn total_of(entries: Seq<(AccountId, u128)>) -> nat
    decreases entries.len(),
{
    if entries.len() == 0 {
        0
    } else {
        total_of(entries.drop_last()) + entries.last().1 as nat
    }
}

/// Where the accounts' entries are distinct, the entry at a position is the
/// entry of its account.
pub proof fn lemma_entry_at<T>(entries: Seq<(AccountId, T)>, i: int)
    requires
        one_entry_each(entries),
        0 <= i < entries.len(),
    ensures
        has_entry(entries, entries[i].0),
        entry_of(entries, entries[i].0) == entries[i].1,
{
    let who = entries[i].0;
    let k = choose|k: int| 0 <= k < entries.len() && (#[trigger] entries[k]).0 == who;
    if k < i {
        assert(entries[k].0 != entries[i].0);
    } else if i < k {
        assert(entries[i].0 != entries[k].0);
    }
}

/// An entry added for an account that had none: the entries stay distinct, the
/// new account has the new entry, and every other account has what it had.
pub proof fn lemma_entry_added<T>(entries: Seq<(AccountId, T)>, who: AccountId, what: T)
    requires
        one_entry_each(entries),
        !has_entry(entries, who),
    ensures
        one_entry_each(entries.push((who, what))),
        has_entry(entries.push((who, what)), who),
        entry_of(entries.push((who, what)), who) == what,
        forall|other: AccountId|
            has_entry(entries, other) ==> #[trigger] has_entry(entries.push((who, what)), other)
                && entry_of(entries.push((who, what)), other) == entry_of(entries, other),
        forall|other: AccountId|
            other != who && #[trigger] has_entry(entries.push((who, what)), other) ==> has_entry(
                entries,
                other,
            ),
{
    let longer = entries.push((who, what));
    assert forall|i: int, j: int| 0 <= i < j < longer.len() implies (#[trigger] longer[i]).0 != (
    #[trigger] longer[j]).0 by {
        if j < entries.len() {
            assert(entries[i].0 != entries[j].0);
        } else {
            assert(entries[i].0 != who);
        }
    }
    assert(longer[entries.len() as int].0 == who);
    lemma_entry_at(longer, entries.len() as int);
    assert forall|other: AccountId| has_entry(entries, other) implies #[trigger] has_entry(
        longer,
        other,
    ) && entry_of(longer, other) == entry_of(entries, other) by {
        let k = choose|k: int| 0 <= k < entries.len() && (#[trigger] entries[k]).0 == other;
        assert(longer[k] == entries[k]);
        lemma_entry_at(longer, k);
    }
    assert forall|other: AccountId| other != who && #[trigger] has_entry(
        longer,
        other,
    ) implies has_entry(entries, other) by {
        let k = choose|k: int| 0 <= k < longer.len() && (#[trigger] longer[k]).0 == other;
        assert(k < entries.len());
        assert(entries[k] == longer[k]);
    }
}

/// The sum grows by the amount of an added entry.
pub proof fn lemma_total_added(entries: Seq<(AccountId, u128)>, who: AccountId, amount: u128)
    ensures
        total_of(entries.push((who, amount))) == total_of(entries) + amount,
{
    assert(entries.push((who, amount)).drop_last() =~= entries);
}

/// The sum of the first entries is at most the sum of all.
pub proof fn lemma_total_of_prefix(entries: Seq<(AccountId, u128)>, n: int)
    requires
        0 <= n <= entries.len(),
    ensures
        total_of(entries.take(n)) <= total_of(entries),
    decreases entries.len(),
{
    if n == entries.len() {
        assert(entries.take(n) =~= entries);
    } else {
        lemma_total_of_prefix(entries.drop_last(), n);
        assert(entries.drop_last().take(n) =~= entries.take(n));
    }
}

/// One round of a game: who committed to what, who revealed what, what each
/// player paid in, and the totals.
#[derive(Clone, Debug, PartialEq, Eq)]
pub struct GameRound {
    pub id: u8,
    pub status: RoundStatus,
    pub player_commits: Vec<(AccountId, crate::types::Hash)>,
    pub player_reveals: Vec<(AccountId, (u128, u128))>,
    pub player_contributions: Vec<(AccountId, u128)>,
    pub total_contribution: u128,
    pub total_reward: u128,
}

/// A round as a mathematical value.
pub struct RoundView {
    pub id: u8,
    pub status: RoundStatus,
    pub commits: Seq<(AccountId, crate::types::Hash)>,
    pub reveals: Seq<(AccountId, (u128, u128))>,
    pub contributions: Seq<(AccountId, u128)>,
    pub total_contribution: u128,
    pub total_reward: u128,
}

impl View for GameRound {
    type V = RoundView;

    open spec fn view(&self) -> RoundView {
        RoundView {
            id: self.id,
            status: self.status,
            commits: self.player_commits@,
            reveals: self.player_reveals@,
            contributions: self.player_contributions@,
            total_contribution: self.total_contribution,
            total_reward: self.total_reward,
        }
    }
}

impl RoundView {
    /// The round with this id in which nothing has happened yet.
    pub open spec fn fresh(id: u8) -> RoundView {
        RoundView {
            id,
            status: RoundStatus::Ready,
            commits: Seq::empty(),
            reveals: Seq::empty(),
            contributions: Seq::empty(),
            total_contribution: 0,
            total_reward: 0,
        }
    }

    /// What holds of every round, open or resolved:
    /// - a player has at most one commitment and at most one reveal;
    /// - a player has revealed only what opens that player's commitment;
    /// - the contributions are those of the commitments, in their order, and
    ///   `total_contribution` is their sum.
    pub open spec fn consistent(self) -> bool {
        &&& one_entry_each(self.commits)
        &&& one_entry_each(self.reveals)
        &&& forall|i: int|
            0 <= i < self.reveals.len() ==> has_entry(self.commits, (#[trigger] self.reveals[i]).0)
                && opens(
                entry_of(self.commits, self.reveals[i].0),
                self.reveals[i].1.0,
                self.reveals[i].1.1,
            )
        &&& self.contributions.len() == self.commits.len()
        &&& forall|i: int|
            0 <= i < self.commits.len() ==> (#[trigger] self.contributions[i]).0
                == self.commits[i].0
        &&& self.total_contribution == total_of(self.contributions)
    }

    /// What holds of the round that a game is playing: it is consistent, not
    /// yet resolved, and `Ready` exactly as long as nobody has committed.
    pub open spec fn open(self) -> bool {
        &&& self.consistent()
        &&& self.status != RoundStatus::Ended
        &&& (self.status == RoundStatus::Ready <==> self.commits.len() == 0)
    }

    /// What holds of a round that was resolved.
    pub open spec fn resolved(self) -> bool {
        self.consistent() && self.status == RoundStatus::Ended
    }

    /// `player` has committed in this round.
    pub open spec fn committed(self, player: AccountId) -> bool {
        has_entry(self.commits, player)
    }

    /// `player` has revealed in this round.
    pub open spec fn revealed(self, player: AccountId) -> bool {
        has_entry(self.reveals, player)
    }

    /// The round after `player` has committed to `commitment` and paid `value`.
    pub open spec fn with_commit(
        self,
        player: AccountId,
        commitment: crate::types::Hash,
        value: u128,
    ) -> RoundView {
        RoundView {
            status: RoundStatus::OnGoing,
            commits: self.commits.push((player, commitment)),
            contributions: self.contributions.push((player, value)),
            total_contribution: (self.total_contribution + value) as u128,
            ..self
        }
    }

    /// The round after `player` has revealed `reveal`.
    pub open spec fn with_reveal(self, player: AccountId, reveal: (u128, u128)) -> RoundView {
        RoundView { reveals: self.reveals.push((player, reveal)), ..self }
    }

    /// The round once resolved, `reward` having been allotted.
    pub open spec fn ended(self, reward: u128) -> RoundView {
        RoundView { status: RoundStatus::Ended, total_reward: reward, ..self }
    }

    /// Why `player` cannot reveal `reveal` in this round, if anything is in
    /// the way: there must be a commitment of the player; the player must not
    /// have revealed before; and the pair must open the commitment.
    pub open spec fn reveal_error(self, player: AccountId, reveal: (u128, u128)) -> Option<
        GameError,
    > {
        if !self.committed(player) {
            Some(GameError::CommitmentNotFound)
        } else if self.revealed(player) || !opens(
            entry_of(self.commits, player),
            reveal.0,
            reveal.1,
        ) {
            Some(GameError::InvalidReveal)
        } else {
            None
        }
    }
}

/// A commitment of a player who had none leaves an open round open.
pub proof fn lemma_commit_keeps_open(
    round: RoundView,
    player: AccountId,
    commitment: crate::types::Hash,
    value: u128,
)
    requires
        round.open(),
        !round.committed(player),
        round.total_contribution + value <= u128::MAX,
    ensures
        round.with_commit(player, commitment, value).open(),
{
    let after = round.with_commit(player, commitment, value);
    lemma_entry_added(round.commits, player, commitment);
    lemma_total_added(round.contributions, player, value);
    assert forall|i: int| 0 <= i < after.reveals.len() implies has_entry(
        after.commits,
        (#[trigger] after.reveals[i]).0,
    ) && opens(
        entry_of(after.commits, after.reveals[i].0),
        after.reveals[i].1.0,
        after.reveals[i].1.1,
    ) by {
        let who = round.reveals[i].0;
        assert(has_entry(round.commits, who));
        assert(has_entry(after.commits, who));
        assert(entry_of(after.commits, who) == entry_of(round.commits, who));
    }
    assert forall|i: int| 0 <= i < after.commits.len() implies (#[trigger] after.contributions[i]).0
        == after.commits[i].0 by {
        if i < round.commits.len() {
            assert(round.contributions[i].0 == round.commits[i].0);
        }
    }
}

/// A reveal that nothing is in the way of leaves an open round open.
pub proof fn lemma_reveal_keeps_open(round: RoundView, player: AccountId, reveal: (u128, u128))
    requires
        round.open(),
        round.reveal_error(player, reveal) is None,
    ensures
        round.with_reveal(player, reveal).open(),
{
    let after = round.with_reveal(player, reveal);
    lemma_entry_added(round.reveals, player, reveal);
    assert forall|i: int| 0 <= i < after.reveals.len() implies has_entry(
        after.commits,
        (#[trigger] after.reveals[i]).0,
    ) && opens(
        entry_of(after.commits, after.reveals[i].0),
        after.reveals[i].1.0,
        after.reveals[i].1.1,
    ) by {
        if i < round.reveals.len() {
            assert(after.reveals[i] == round.reveals[i]);
            assert(has_entry(round.commits, round.reveals[i].0));
        }
    }
}

/// The sum of the amounts of `entries`, where a `u128` holds it.
pub fn sum_of(entries: &Vec<(AccountId, u128)>) -> (sum: Option<u128>)
    ensures
        match sum {
            Some(sum) => sum == total_of(entries@),
            None => total_of(entries@) > u128::MAX,
        },
{
    let mut total: u128 = 0;
    let mut i: usize = 0;
    assert(entries@.take(0) =~= Seq::<(AccountId, u128)>::empty());
    while i < entries.len()
        invariant
            i <= entries.len(),
            total == total_of(entries@.take(i as int)),
        decreases entries.len() - i,
    {
        proof {
            assert(entries@.take(i + 1) =~= entries@.take(i as int).push(entries@[i as int]));
            lemma_total_added(entries@.take(i as int), entries@[i as int].0, entries@[i as int].1);
            lemma_total_of_prefix(entries@, i + 1);
        }
        total = match total.checked_add(entries[i].1) {
            Some(total) => total,
            None => {
                return None;
            },
        };
        i += 1;
    }
    assert(entries@.take(i as int) =~= entries@);
    Some(total)
}

/// A copy of a vector of values that are copied bit by bit.
pub fn copy_of<T: Copy>(items: &Vec<T>) -> (copy: Vec<T>)
    ensures
        copy@ == items@,
{
    let mut copy: Vec<T> = Vec::new();
    let mut i: usize = 0;
    while i < items.len()
        invariant
            i <= items.len(),
            copy@ == items@.take(i as int),
        decreases items.len() - i,
    {
        copy.push(items[i]);
        assert(items@.take(i + 1) =~= items@.take(i as int).push(items@[i as int]));
        i += 1;
    }
    assert(items@.take(items.len() as int) =~= items@);
    copy
}

/// Looks for the entry of `who`: its position, or `None` where there is none.
pub fn find_entry<T>(entries: &Vec<(AccountId, T)>, who: AccountId) -> (at: Option<usize>)
    ensures
        at is Some == has_entry(entries@, who),
        at is Some ==> at->0 < entries.len() && entries@[at->0 as int].0 == who,
{
    let mut i: usize = 0;
    while i < entries.len()
        invariant
            i <= entries.len(),
            forall|j: int| 0 <= j < i ==> (#[trigger] entries@[j]).0 != who,
        decreases entries.len() - i,
    {
        if entries[i].0 == who {
            return Some(i);
        }
        i += 1;
    }
    None
}

/// Tests `one_entry_each`.
pub fn entries_distinct<T>(entries: &Vec<(AccountId, T)>) -> (ok: bool)
    ensures
        ok == one_entry_each(entries@),
{
    let mut j: usize = 0;
    while j < entries.len()
        invariant
            j <= entries.len(),
            forall|a: int, b: int|
                0 <= a < b < j ==> (#[trigger] entries@[a]).0 != (#[trigger] entries@[b]).0,
        decreases entries.len() - j,
    {
        let mut i: usize = 0;
        while i < j
            invariant
                i <= j < entries.len(),
                forall|a: int| 0 <= a < i ==> (#[trigger] entries@[a]).0 != entries@[j as int].0,
            decreases j - i,
        {
            if entries[i].0 == entries[j].0 {
                assert(entries@[i as int].0 == entries@[j as int].0);
                return false;
            }
            i += 1;
        }
        j += 1;
    }
    true
}

impl GameRound {
    /// A round in which nothing has happened yet.
    pub fn new(id: u8) -> (round: GameRound)
        ensures
            round@ == RoundView::fresh(id),
    {
        GameRound {
            id,
            status: RoundStatus::Ready,
            player_commits: Vec::new(),
            player_reveals: Vec::new(),
            player_contributions: Vec::new(),
            total_contribution: 0,
            total_reward: 0,
        }
    }

    /// A copy of the round.
    pub fn duplicate(&self) -> (copy: GameRound)
        ensures
            copy@ == self@,
    {
        GameRound {
            id: self.id,
            status: self.status,
            player_commits: copy_of(&self.player_commits),
            player_reveals: copy_of(&self.player_reveals),
            player_contributions: copy_of(&self.player_contributions),
            total_contribution: self.total_contribution,
            total_reward: self.total_reward,
        }
    }

    /// Tells whether `player` has committed in this round.
    pub fn has_committed(&self, player: AccountId) -> (yes: bool)
        ensures
            yes == self@.committed(player),
    {
        find_entry(&self.player_commits, player).is_some()
    }

    /// Tells whether `player` has revealed in this round.
    pub fn has_revealed(&self, player: AccountId) -> (yes: bool)
        ensures
            yes == self@.revealed(player),
    {
        find_entry(&self.player_reveals, player).is_some()
    }

    /// Tests `consistent`.
    pub fn is_consistent(&self) -> (ok: bool)
        ensures
            ok == self@.consistent(),
    {
        if !entries_distinct(&self.player_commits) || !entries_distinct(&self.player_reveals) {
            return false;
        }
        if self.player_contributions.len() != self.player_commits.len() {
            return false;
        }
        let mut total: u128 = 0;
        let mut i: usize = 0;
        assert(self@.contributions.take(0) =~= Seq::<(AccountId, u128)>::empty());
        while i < self.player_commits.len()
            invariant
                i <= self.player_commits.len(),
                self.player_contributions.len() == self.player_commits.len(),
                forall|k: int|
                    0 <= k < i ==> (#[trigger] self@.contributions[k]).0 == self@.commits[k].0,
                total == total_of(self@.contributions.take(i as int)),
            decreases self.player_commits.len() - i,
        {
            if self.player_contributions[i].0 != self.player_commits[i].0 {
                assert(self@.contributions[i as int].0 != self@.commits[i as int].0);
                return false;
            }
            proof {
                assert(self@.contributions.take(i + 1) =~= self@.contributions.take(i as int).push(
                    self@.contributions[i as int],
                ));
                lemma_total_added(
                    self@.contributions.take(i as int),
                    self@.contributions[i as int].0,
                    self@.contributions[i as int].1,
                );
            }
            total = match total.checked_add(self.player_contributions[i].1) {
                Some(total) => total,
                None => {
                    proof {
                        lemma_total_of_prefix(self@.contributions, i + 1);
                    }
                    return false;
                },
            };
            i += 1;
        }
        assert(self@.contributions.take(i as int) =~= self@.contributions);
        if total != self.total_contribution {
            return false;
        }
        let mut i: usize = 0;
        while i < self.player_reveals.len()
            invariant
                i <= self.player_reveals.len(),
                one_entry_each(self@.commits),
                forall|k: int|
                    0 <= k < i ==> has_entry(self@.commits, (#[trigger] self@.reveals[k]).0)
                        && opens(
                        entry_of(self@.commits, self@.reveals[k].0),
                        self@.reveals[k].1.0,
                        self@.reveals[k].1.1,
                    ),
            decreases self.player_reveals.len() - i,
        {
            let entry = self.player_reveals[i];
            match find_entry(&self.player_commits, entry.0) {
                None => {
                    assert(!has_entry(self@.commits, self@.reveals[i as int].0));
                    return false;
                },
                Some(at) => {
                    proof {
                        lemma_entry_at(self@.commits, at as int);
                    }
                    if !verify(&self.player_commits[at].1, entry.1.0, entry.1.1) {
                        assert(!opens(
                            entry_of(self@.commits, self@.reveals[i as int].0),
                            self@.reveals[i as int].1.0,
                            self@.reveals[i as int].1.1,
                        ));
                        return false;
                    }
                },
            }
            i += 1;
        }
        true
    }

    /// Tests `open`.
    pub fn is_open(&self) -> (ok: bool)
        ensures
            ok == self@.open(),
    {
        if !self.is_consistent() {
            return false;
        }
        match self.status {
            RoundStatus::Ended => false,
            RoundStatus::Ready => self.player_commits.len() == 0,
            RoundStatus::OnGoing => self.player_commits.len() != 0,
        }
    }

    /// Tests `resolved`.
    pub fn is_resolved(&self) -> (ok: bool)
        ensures
            ok == self@.resolved(),
    {
        self.is_consistent() && self.status == RoundStatus::Ended
    }

    /// Decides whether `player` may reveal `reveal`, and says why not.
    pub fn check_reveal(&self, player: AccountId, reveal: (u128, u128)) -> (r: Result<
        (),
        GameError,
    >)
        requires
            self@.consistent(),
        ensures
            match self@.reveal_error(player, reveal) {
                Some(e) => r == Err::<(), GameError>(e),
                None => r == Ok::<(), GameError>(()),
            },
    {
        match find_entry(&self.player_commits, player) {
            None => Err(GameError::CommitmentNotFound),
            Some(at) => {
                proof {
                    lemma_entry_at(self@.commits, at as int);
                }
                if self.has_revealed(player) {
                    Err(GameError::InvalidReveal)
                } else if !verify(&self.player_commits[at].1, reveal.0, reveal.1) {
                    Err(GameError::InvalidReveal)
                } else {
                    Ok(())
                }
            },
        }
    }
}

} // verus!
