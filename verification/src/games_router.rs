//! A register of games kept by its owner.

use crate::types::AccountId;
use vstd::prelude::*;

verus! {

/// The games that the first router knew.
#[derive(Clone, Copy, Debug, PartialEq, Eq, Structural)]
pub enum WhichGame {
    RockPaperScissors,
    PublicGood,
}

/// A register of the games that its owner has set up, by the hash of their code.
#[derive(Clone, Debug, PartialEq, Eq)]
pub struct GamesRouter {
    pub owner: AccountId,
    /// The address of the game set up from each code hash.
    pub games: Vec<(crate::types::Hash, AccountId)>,
    /// How many games were set up.
    pub games_count: u32,
}

impl GamesRouter {
    /// A register owned by `owner`, with no game in it.
    pub fn new(owner: AccountId) -> (router: GamesRouter)
        ensures
            router.owner == owner,
            router.games@.len() == 0,
            router.games_count == 0,
    {
        GamesRouter { owner, games: Vec::new(), games_count: 0 }
    }

    /// The same as `new`.
    pub fn default(owner: AccountId) -> (router: GamesRouter)
        ensures
            router.owner == owner,
            router.games@.len() == 0,
            router.games_count == 0,
    {
        Self::new(owner)
    }

    /// The owner of the register.
    pub fn get_owner(&self) -> (owner: AccountId)
        ensures
            owner == self.owner,
    {
        self.owner
    }

    /// Takes the request of the owner for a game of the code `game_hash`.
    /// Only the owner may ask; the register does not change.
    pub fn new_game(&mut self, caller: AccountId, game_hash: crate::types::Hash)
        requires
            caller == old(self).owner,
        ensures
            *final(self) == *old(self),
    {
    }
}

} // verus!
