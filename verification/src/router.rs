//! The router: which code runs which game, and how an instance is set up.

use crate::commitment::le_digits;
use crate::types::AccountId;
use vstd::prelude::*;

verus! {

/// The games that the router can set up.
#[derive(Clone, Copy, Debug, PartialEq, Eq, Structural)]
pub enum Game {
    RockPaperScissors,
    PublicGood,
    Dictator,
}

/// Why an operation of the router fails.
#[derive(Clone, Copy, Debug, PartialEq, Eq, Structural)]
pub enum RouterError {
    /// No further game can be counted.
    FailedToInstantiateGame,
    /// No code is registered for the game.
    HashNotFoundForGame,
    /// Only the owner registers code.
    MustBeOwnerToSetGameHash,
}

/// What is needed to set up one instance of a game: the code to run, what the
/// instance is endowed with, and the salt that tells it from the others.
#[derive(Clone, Copy, Debug, PartialEq, Eq)]
pub struct Instantiation {
    pub game: Game,
    pub code_hash: crate::types::Hash,
    pub endowment: u128,
    pub salt: [u8; 4],
}

/// The code registered for each game.
#[derive(Clone, Copy, Debug, PartialEq, Eq)]
pub struct GameHashes {
    pub rock_paper_scissors: Option<crate::types::Hash>,
    pub public_good: Option<crate::types::Hash>,
    pub dictator: Option<crate::types::Hash>,
}

impl GameHashes {
    /// The code registered for `which`, if any.
    pub open spec fn of(self, which: Game) -> Option<crate::types::Hash> {
        match which {
            Game::RockPaperScissors => self.rock_paper_scissors,
            Game::PublicGood => self.public_good,
            Game::Dictator => self.dictator,
        }
    }
}

impl View for GameHashes {
    type V = Map<Game, crate::types::Hash>;

    open spec fn view(&self) -> Map<Game, crate::types::Hash> {
        Map::new(|which: Game| self.of(which) is Some, |which: Game| self.of(which)->0)
    }
}

/// Sets up games from the code that its owner has registered for them.
#[derive(Clone, Copy, Debug, PartialEq, Eq)]
pub struct Router {
    pub owner: AccountId,
    pub game_hashes: GameHashes,
    /// How many games were set up.
    pub games_count: u32,
}

impl Router {
    /// The salt of the game that is counted as number `count`: the four
    /// little-endian bytes of the count.
    pub open spec fn salt_of(count: u32) -> Seq<u8> {
        le_digits(count as nat, 4)
    }

    /// A router owned by `owner`, with no code registered and no game set up.
    pub fn new(owner: AccountId) -> (router: Router)
        ensures
            router.owner == owner,
            router.game_hashes@ == Map::<Game, crate::types::Hash>::empty(),
            router.games_count == 0,
    {
        let router = Router {
            owner,
            game_hashes: GameHashes {
                rock_paper_scissors: None,
                public_good: None,
                dictator: None,
            },
            games_count: 0,
        };
        assert(router.game_hashes@ =~= Map::<Game, crate::types::Hash>::empty());
        router
    }

    /// The same as `new`.
    pub fn default(owner: AccountId) -> (router: Router)
        ensures
            router.owner == owner,
            router.game_hashes@ == Map::<Game, crate::types::Hash>::empty(),
            router.games_count == 0,
    {
        Self::new(owner)
    }

    /// Lets only the owner go on.
    pub fn ensure_owner(&self, caller: AccountId) -> (r: Result<(), RouterError>)
        ensures
            r == (if caller == self.owner {
                Ok::<(), RouterError>(())
            } else {
                Err::<(), RouterError>(RouterError::MustBeOwnerToSetGameHash)
            }),
    {
        if caller != self.owner {
            return Err(RouterError::MustBeOwnerToSetGameHash);
        }
        Ok(())
    }

    /// The owner of the router.
    pub fn get_owner(&self) -> (owner: AccountId)
        ensures
            owner == self.owner,
    {
        self.owner
    }

    /// The code registered for `which`.
    pub fn get_game_hash(&self, which: Game) -> (r: Result<crate::types::Hash, RouterError>)
        ensures
            r == (if self.game_hashes@.contains_key(which) {
                Ok::<crate::types::Hash, RouterError>(self.game_hashes@[which])
            } else {
                Err::<crate::types::Hash, RouterError>(RouterError::HashNotFoundForGame)
            }),
    {
        let found = match which {
            Game::RockPaperScissors => self.game_hashes.rock_paper_scissors,
            Game::PublicGood => self.game_hashes.public_good,
            Game::Dictator => self.game_hashes.dictator,
        };
        match found {
            Some(hash) => Ok(hash),
            None => Err(RouterError::HashNotFoundForGame),
        }
    }

    /// Registers `hash` as the code of `which`, for the owner alone.
    pub fn set_game_hash(&mut self, caller: AccountId, which: Game, hash: crate::types::Hash) -> (r:
        Result<(), RouterError>)
        ensures
            caller != old(self).owner ==> r == Err::<(), RouterError>(
                RouterError::MustBeOwnerToSetGameHash,
            ) && *final(self) == *old(self),
            caller == old(self).owner ==> r == Ok::<(), RouterError>(()) && final(self).owner
                == old(self).owner && final(self).games_count == old(self).games_count
                && final(self).game_hashes@ == old(self).game_hashes@.insert(which, hash),
    {
        match self.ensure_owner(caller) {
            Err(e) => {
                return Err(e);
            },
            Ok(()) => {},
        }
        match which {
            Game::RockPaperScissors => {
                self.game_hashes.rock_paper_scissors = Some(hash);
            },
            Game::PublicGood => {
                self.game_hashes.public_good = Some(hash);
            },
            Game::Dictator => {
                self.game_hashes.dictator = Some(hash);
            },
        }
        assert(self.game_hashes@ =~= old(self).game_hashes@.insert(which, hash));
        Ok(())
    }

    /// Counts one more game and says how the instance of `which` is to be set
    /// up, with `value` as its endowment.
    pub fn new_game(&mut self, which: Game, value: u128) -> (r: Result<Instantiation, RouterError>)
        ensures
            !old(self).game_hashes@.contains_key(which) ==> r == Err::<Instantiation, RouterError>(
                RouterError::HashNotFoundForGame,
            ) && *final(self) == *old(self),
            old(self).game_hashes@.contains_key(which) && old(self).games_count == u32::MAX ==> r
                == Err::<Instantiation, RouterError>(RouterError::FailedToInstantiateGame)
                && *final(self) == *old(self),
            old(self).game_hashes@.contains_key(which) && old(self).games_count < u32::MAX ==> {
                &&& r is Ok
                &&& r->Ok_0.game == which
                &&& r->Ok_0.code_hash == old(self).game_hashes@[which]
                &&& r->Ok_0.endowment == value
                &&& r->Ok_0.salt@ == Self::salt_of((old(self).games_count + 1) as u32)
                &&& final(self).games_count == old(self).games_count + 1
                &&& final(self).owner == old(self).owner
                &&& final(self).game_hashes == old(self).game_hashes
            },
    {
        let code_hash = match self.get_game_hash(which) {
            Ok(hash) => hash,
            Err(e) => {
                return Err(e);
            },
        };
        if self.games_count == u32::MAX {
            return Err(RouterError::FailedToInstantiateGame);
        }
        self.games_count = self.games_count + 1;
        let count: u32 = self.games_count;
        let salt: [u8; 4] = [
            (count % 256) as u8,
            ((count / 256) % 256) as u8,
            ((count / 65536) % 256) as u8,
            ((count / 16777216) % 256) as u8,
        ];
        proof {
            reveal_with_fuel(le_digits, 5);
            assert(salt@ =~= Self::salt_of(count));
        }
        Ok(Instantiation { game: which, code_hash, endowment: value, salt })
    }
}

} // verus!
