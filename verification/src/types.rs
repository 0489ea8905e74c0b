//! Accounts, digests, statuses, errors and the parameters of a game.

use vstd::prelude::*;

verus! {

/// Compares two 32-byte strings.
pub fn bytes_equal(a: &[u8; 32], b: &[u8; 32]) -> (same: bool)
    ensures
        same == (*a == *b),
{
    let mut i: usize = 0;
    while i < 32
        invariant
            i <= 32,
            forall|j: int| 0 <= j < i ==> a[j] == b[j],
        decreases 32 - i,
    {
        if a[i] != b[i] {
            return false;
        }
        i += 1;
    }
    assert(*a =~= *b);
    true
}

/// The identity of an account: a caller, a player, the creator of a game.
#[derive(Clone, Copy, Debug, Eq)]
pub struct AccountId {
    pub bytes: [u8; 32],
}

impl PartialEq for AccountId {
    fn eq(&self, other: &Self) -> (same: bool) {
        bytes_equal(&self.bytes, &other.bytes)
    }
}

impl vstd::std_specs::cmp::PartialEqSpecImpl for AccountId {
    open spec fn obeys_eq_spec() -> bool {
        true
    }

    open spec fn eq_spec(&self, other: &Self) -> bool {
        *self == *other
    }
}

/// A digest of 256 bits: a commitment, or the code hash of a game.
#[derive(Clone, Copy, Debug, Eq)]
pub struct Hash {
    pub bytes: [u8; 32],
}

impl PartialEq for Hash {
    fn eq(&self, other: &Self) -> (same: bool) {
        bytes_equal(&self.bytes, &other.bytes)
    }
}

impl vstd::std_specs::cmp::PartialEqSpecImpl for Hash {
    open spec fn obeys_eq_spec() -> bool {
        true
    }

    open spec fn eq_spec(&self, other: &Self) -> bool {
        *self == *other
    }
}

impl View for Hash {
    type V = Seq<u8>;

    open spec fn view(&self) -> Seq<u8> {
        self.bytes@
    }
}

/// Why the authorization capability turned a caller away.
#[derive(Clone, Copy, Debug, PartialEq, Eq, Structural)]
pub enum AccessControlError {
    InvalidCaller,
    MissingRole,
    RoleRedundant,
}

/// Every way in which an operation of a game can fail.
#[derive(Clone, Copy, Debug, PartialEq, Eq, Structural)]
pub enum GameError {
    /// The caller lacks the role that the operation asks for.
    AccessControlError(AccessControlError),
    FailedToEmitEvent,
    /// The payout rule cannot produce amounts for this round.
    FailedToGetWinners,
    /// Caller must match the player being added.
    CallerMustMatchNewPlayer,
    /// No more space for players to join.
    MaxPlayersReached,
    /// Fees paid to join the game are not sufficient.
    InsufficientJoiningFees,
    /// The round has not expired yet.
    RoundNotExpired,
    /// No commitment made by the player for the current round.
    CommitmentNotFound,
    /// The commitment does not match the revealed value.
    InvalidReveal,
    /// Round cannot be closed.
    FailedToCloseRound,
    /// The game has not reached enough players.
    NotEnoughPlayers,
    /// The game is not in progress.
    GameNotStarted,
    /// There is no current round.
    NoCurrentRound,
    /// The round is in the wrong state for the operation.
    InvalidRoundState,
    /// The current round has not ended yet.
    RoundNotEnded,
    /// The game is in the wrong state for the operation.
    InvalidGameState,
    /// Invalid value paid to play a round.
    InvalidRoundContribution,
    /// The refund of the unused part of a contribution failed.
    PartialContributionRefundFailed,
    /// Not all the players revealed.
    NotAllPlayersRevealed,
    /// Failed to issue winner rewards.
    FailedToIssueWinnerRewards,
    /// Player is already in the game.
    PlayerAlreadyJoined,
    /// Player already played in this round.
    PlayerAlreadyCommitted,
    /// Player choice for the round is not valid.
    InvalidChoice,
    /// The payment that accompanies an added player could not be forwarded.
    FailedToAddPlayer,
    /// No prize has been set for the round.
    EndowmentNotSet,
    /// The balance of the game is not enough for the operation.
    EndownmentNotEnough,
    /// No random value is available to the game.
    SeedNotSet,
}

/// The lifecycle of a whole session. It only moves forward:
/// `Ready`, then `OnGoing`, then `Ended`.
#[derive(Clone, Copy, Debug, PartialEq, Eq, Structural)]
pub enum GameStatus {
    Ready,
    OnGoing,
    Ended,
}

/// The lifecycle of one round: `Ready` until the first commitment, `OnGoing`
/// until it is resolved, then `Ended`.
#[derive(Clone, Copy, Debug, PartialEq, Eq, Structural)]
pub enum RoundStatus {
    Ready,
    OnGoing,
    Ended,
}

/// The failure of the source of randomness.
#[derive(Clone, Copy, Debug, PartialEq, Eq, Structural)]
pub enum RandomReadErr {
    FailGetRandomSource,
}

impl RandomReadErr {
    /// Reads the status code that the source of randomness answers with:
    /// 0 is success, 1 is its failure. No other code is defined.
    pub fn from_status_code(status_code: u32) -> (r: Result<(), RandomReadErr>)
        requires
            status_code <= 1,
        ensures
            r == (if status_code == 0 {
                Ok::<(), RandomReadErr>(())
            } else {
                Err::<(), RandomReadErr>(RandomReadErr::FailGetRandomSource)
            }),
    {
        if status_code == 0 {
            Ok(())
        } else {
            Err(RandomReadErr::FailGetRandomSource)
        }
    }
}

/// The parameters of a game, fixed when it is created.
#[derive(Clone, Copy, Debug, PartialEq, Eq)]
pub struct GameConfigs {
    pub max_players: u8,
    pub min_players: u8,
    pub min_round_contribution: Option<u128>,
    pub max_round_contribution: Option<u128>,
    /// The multiplier of the round reward, in tenths.
    pub round_reward_multiplier: Option<i8>,
    pub post_round_actions: bool,
    /// The number of blocks before a round is considered stale.
    pub round_timeout: Option<u32>,
    pub max_rounds: Option<u32>,
    pub join_fee: Option<u128>,
    pub is_rounds_based: bool,
}

impl GameConfigs {
    /// What every game asks of its parameters: the player bounds are ordered,
    /// and so are the contribution bounds where both are set.
    pub open spec fn valid(&self) -> bool {
        &&& self.min_players <= self.max_players
        &&& (self.min_round_contribution is Some && self.max_round_contribution is Some
            ==> self.min_round_contribution->0 <= self.max_round_contribution->0)
    }

    /// Both contribution bounds are set.
    pub open spec fn bounds_contributions(&self) -> bool {
        self.min_round_contribution is Some && self.max_round_contribution is Some
    }

    /// Tests `valid`.
    pub fn is_valid(&self) -> (ok: bool)
        ensures
            ok == self.valid(),
    {
        if self.min_players > self.max_players {
            return false;
        }
        match (self.min_round_contribution, self.max_round_contribution) {
            (Some(min), Some(max)) => min <= max,
            _ => true,
        }
    }

    /// Tests `bounds_contributions`.
    pub fn has_contribution_bounds(&self) -> (ok: bool)
        ensures
            ok == self.bounds_contributions(),
    {
        self.min_round_contribution.is_some() && self.max_round_contribution.is_some()
    }
}

} // verus!
