//! Commit-reveal economic games: the session state, the round lifecycle and
//! the payout rules of Rock-Paper-Scissors, Public Good and Dictator.
//!
//! Each operation is a function from the state of a game and the values of a
//! call (who calls, what was paid, which block it is) to the next state and to
//! what is then owed: payments to make, the end of the game. Whoever runs a
//! game makes the payments and hands their outcome back where the operation
//! asks for it.

pub mod access;
pub mod commitment;
pub mod data;
pub mod dictator;
pub mod games_router;
pub mod laws;
pub mod public_good;
pub mod rock_paper_scissors;
pub mod round;
pub mod router;
pub mod traits;
pub mod types;

pub use access::only_role;
pub use commitment::{commit, verify};
pub use data::{ContributionRule, Data, Settlement};
pub use dictator::Dictator;
pub use games_router::{GamesRouter, WhichGame};
pub use public_good::PublicGood;
pub use rock_paper_scissors::RockPaperScissors;
pub use round::GameRound;
pub use router::{Game, Instantiation, Router, RouterError};
pub use traits::{Basic, Utils};
pub use types::{
    AccessControlError, AccountId, GameConfigs, GameError, GameStatus, RandomReadErr, RoundStatus,
};
