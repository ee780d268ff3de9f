use vstd::prelude::*;

verus! {

/// Number of member slots in a quest party.
pub const MAX_PARTY_SIZE: usize = 3;

/// Number of monster slots in a combat encounter.
pub const MAX_COMBAT_ENEMIES: usize = 5;

/// Number of queued encounters in a quest.
pub const MAX_ENCOUNTER_LENGTH: usize = 3;

/// Number of characters a user can hold.
pub const MAX_USER_CHARACTERS: usize = 1;

/// Vital statistics of a unit. Nothing in the type keeps them in range:
/// code that changes them clamps them itself.
#[derive(Clone, Copy, Debug, PartialEq, Eq, Structural)]
pub struct Stats {
    pub health: i32,
    pub energy: i32,
}

/// A fighting unit: its current statistics and their ceilings.
#[derive(Clone, Copy, Debug, PartialEq, Eq, Structural)]
pub struct Unit {
    pub stats: Stats,
    pub max_stats: Stats,
}

/// A playable (or monster) character.
#[derive(Clone, Copy, Debug, PartialEq, Eq, Structural)]
pub struct Character {
    pub unit: Unit,
    pub experience: u32,
    pub coins: u32,
}

/// A registered user and the characters embedded in it (at most one).
#[derive(Clone, Debug)]
pub struct User {
    pub id: i32,
    pub username: String,
    pub characters: Vec<Character>,
}

/// An item, known by its name alone.
#[derive(Clone, Debug)]
pub struct Item {
    pub name: String,
}

/// The all-zero statistics.
pub open spec fn zero_stats() -> Stats {
    Stats { health: 0, energy: 0 }
}

/// The character that fills an unused slot: every field is zero.
pub open spec fn empty_character() -> Character {
    Character { unit: Unit { stats: zero_stats(), max_stats: zero_stats() }, experience: 0, coins: 0 }
}

/// The unit a new character starts with.
pub open spec fn level_one_unit() -> Unit {
    Unit {
        stats: Stats { health: 10, energy: 10 },
        max_stats: Stats { health: 15, energy: 15 },
    }
}

/// A fresh level-one character with no experience and no coins.
pub open spec fn new_character() -> Character {
    Character { unit: level_one_unit(), experience: 0, coins: 0 }
}

/// A character is alive while its health is above zero.
pub open spec fn alive(c: Character) -> bool {
    c.unit.stats.health > 0
}

impl Stats {
    /// Each current value lies between zero and its ceiling.
    pub open spec fn within(self, max: Stats) -> bool {
        0 <= self.health <= max.health && 0 <= self.energy <= max.energy
    }
}

impl Unit {
    /// The unit's statistics respect their ceilings.
    pub open spec fn wf(self) -> bool {
        self.stats.within(self.max_stats)
    }

    /// Builds the starting unit: statistics 10/10, ceilings 15/15.
    pub fn new_lvl_one() -> (r: Unit)
        ensures
            r == level_one_unit(),
            r.wf(),
    {
        Unit {
            stats: Stats { health: 10, energy: 10 },
            max_stats: Stats { health: 15, energy: 15 },
        }
    }
}

impl Character {
    /// Builds a fresh level-one character.
    pub fn new() -> (r: Character)
        ensures
            r == new_character(),
    {
        Character { unit: Unit::new_lvl_one(), experience: 0, coins: 0 }
    }

    /// Builds the all-zero placeholder character.
    pub fn empty() -> (r: Character)
        ensures
            r == empty_character(),
    {
        let z = Stats { health: 0, energy: 0 };
        Character { unit: Unit { stats: z, max_stats: z }, experience: 0, coins: 0 }
    }

    /// Whether the character's health is above zero.
    pub fn is_alive(&self) -> (r: bool)
        ensures
            r == alive(*self),
    {
        self.unit.stats.health > 0
    }
}

impl Default for Character {
    fn default() -> (r: Character)
        ensures
            r == empty_character(),
    {
        Character::empty()
    }
}

impl User {
    /// A user has at most one embedded character.
    pub open spec fn wf(&self) -> bool {
        self.characters@.len() <= MAX_USER_CHARACTERS
    }

    /// Builds a user with the given id and name and no character.
    pub fn new(id: i32, username: String) -> (r: User)
        ensures
            r.id == id,
            r.username@ == username@,
            r.characters@.len() == 0,
            r.wf(),
    {
        User { id, username, characters: Vec::new() }
    }
}

impl Item {
    /// Builds an item with the given name.
    pub fn new(name: String) -> (r: Item)
        ensures
            r.name@ == name@,
    {
        Item { name }
    }
}

} // verus!
