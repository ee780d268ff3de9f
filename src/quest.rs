use vstd::prelude::*;

use crate::data::{
    alive, empty_character, Character, MAX_COMBAT_ENEMIES, MAX_ENCOUNTER_LENGTH, MAX_PARTY_SIZE,
};
use crate::quest_data::{Combat, Encounter, EncounterReward, Quest};
use crate::registry::{live_items, take, ServerState};

verus! {

/// Why a quest step was refused. A refused step leaves the quest unchanged.
#[derive(Clone, Copy, Debug, PartialEq, Eq, Structural)]
pub enum QuestError {
    /// A monster roster must hold between one and `MAX_COMBAT_ENEMIES` monsters.
    InvalidRoster,
    /// An encounter is already open.
    EncounterOpen,
    /// The open encounter is not an NPC encounter.
    NoNpcEncounter,
    /// The open encounter is not a combat whose monsters are all defeated.
    CombatNotWon,
}

/// How many real members an assembled party has.
#[derive(Clone, Copy, Debug, PartialEq, Eq, Structural)]
pub enum PartyStatus {
    /// Every party slot holds a registered character.
    Complete,
    /// Only this many slots hold a registered character; the rest are
    /// placeholders.
    PartialParty(usize),
}

/// Number of real members of the party assembled from `slots`.
pub open spec fn party_size(slots: Seq<Option<Character>>) -> nat {
    take(live_items(slots), MAX_PARTY_SIZE as nat).len()
}

/// `s` padded with placeholder characters (or cut) to exactly `n` entries.
pub open spec fn padded(s: Seq<Character>, n: nat) -> Seq<Character> {
    Seq::new(n, |i: int| if i < s.len() { s[i] } else { empty_character() })
}

/// The party a quest assembles from a registry's character slots: the
/// first `MAX_PARTY_SIZE` live characters in slot order, then placeholders.
pub open spec fn party_of(slots: Seq<Option<Character>>) -> Seq<Character> {
    padded(take(live_items(slots), MAX_PARTY_SIZE as nat), MAX_PARTY_SIZE as nat)
}

/// Party assembly cap: an assembled party has exactly `MAX_PARTY_SIZE`
/// slots; the first ones hold the live characters in slot order, as many as
/// there are up to `MAX_PARTY_SIZE`, and every other slot a placeholder. So
/// with a single live character there is one real member and two
/// placeholders.
pub proof fn lemma_party_cap(slots: Seq<Option<Character>>)
    ensures
        party_of(slots).len() == MAX_PARTY_SIZE,
        forall|i: int|
            0 <= i < MAX_PARTY_SIZE ==> #[trigger] party_of(slots)[i] == if i < live_items(slots).len() {
                live_items(slots)[i]
            } else {
                empty_character()
            },
        live_items(slots).len() == 1 ==> party_of(slots) == seq![
            live_items(slots)[0],
            empty_character(),
            empty_character(),
        ],
{
    if live_items(slots).len() == 1 {
        assert(party_of(slots) =~= seq![live_items(slots)[0], empty_character(), empty_character()]);
    }
}

/// Every monster of the roster is defeated.
pub open spec fn all_defeated(s: Seq<Character>) -> bool {
    forall|i: int| 0 <= i < s.len() ==> !alive(#[trigger] s[i])
}

/// `a + b`, or `u32::MAX` when the sum does not fit.
pub open spec fn sat_add(a: u32, b: u32) -> u32 {
    if a + b > u32::MAX {
        u32::MAX
    } else {
        (a + b) as u32
    }
}

/// A character after receiving `r`; coins and experience saturate.
pub open spec fn rewarded(c: Character, r: EncounterReward) -> Character {
    match r {
        EncounterReward::NoReward => c,
        EncounterReward::CoinReward(n) => Character { coins: sat_add(c.coins, n), ..c },
        EncounterReward::ExperienceReward(n) => Character {
            experience: sat_add(c.experience, n),
            ..c
        },
        EncounterReward::CoinAndExperienceReward(n, x) => Character {
            coins: sat_add(c.coins, n),
            experience: sat_add(c.experience, x),
            ..c
        },
    }
}

/// The party after every member receives `r`.
pub open spec fn party_rewarded(s: Seq<Character>, r: EncounterReward) -> Seq<Character> {
    Seq::new(s.len(), |i: int| rewarded(s[i], r))
}

/// Gives `r` to one character.
pub fn reward_character(c: &mut Character, r: EncounterReward)
    ensures
        *final(c) == rewarded(*old(c), r),
{
    match r {
        EncounterReward::NoReward => {},
        EncounterReward::CoinReward(n) => {
            c.coins = c.coins.saturating_add(n);
        },
        EncounterReward::ExperienceReward(n) => {
            c.experience = c.experience.saturating_add(n);
        },
        EncounterReward::CoinAndExperienceReward(n, x) => {
            c.coins = c.coins.saturating_add(n);
            c.experience = c.experience.saturating_add(x);
        },
    }
}

/// Gives `r` to every member of `members`.
pub fn reward_party(members: &mut Vec<Character>, r: EncounterReward)
    ensures
        final(members)@ == party_rewarded(old(members)@, r),
{
    let mut i: usize = 0;
    while i < members.len()
        invariant
            members@.len() == old(members)@.len(),
            0 <= i <= members@.len(),
            forall|j: int| 0 <= j < i ==> members@[j] == rewarded(old(members)@[j], r),
            forall|j: int| i <= j < members@.len() ==> members@[j] == old(members)@[j],
        decreases members@.len() - i,
    {
        let mut c = members[i];
        reward_character(&mut c, r);
        members[i] = c;
        i = i + 1;
    }
    assert(members@ =~= party_rewarded(old(members)@, r));
}

/// The queued encounters of a new quest: all empty.
fn empty_encounters() -> (r: Vec<Encounter>)
    ensures
        r@.len() == MAX_ENCOUNTER_LENGTH,
        forall|i: int| 0 <= i < r@.len() ==> #[trigger] r@[i] is EmptyEncounter,
{
    let mut v: Vec<Encounter> = Vec::new();
    while v.len() < MAX_ENCOUNTER_LENGTH
        invariant
            v@.len() <= MAX_ENCOUNTER_LENGTH,
            forall|i: int| 0 <= i < v@.len() ==> #[trigger] v@[i] is EmptyEncounter,
        decreases MAX_ENCOUNTER_LENGTH - v@.len(),
    {
        v.push(Encounter::EmptyEncounter);
    }
    v
}

/// `s` padded with placeholder characters to `n` entries.
fn pad(s: Vec<Character>, n: usize) -> (r: Vec<Character>)
    requires
        s@.len() <= n,
    ensures
        r@ == padded(s@, n as nat),
{
    let mut v = s;
    while v.len() < n
        invariant
            s@.len() <= v@.len() <= n,
            forall|i: int| 0 <= i < s@.len() ==> v@[i] == s@[i],
            forall|i: int| s@.len() <= i < v@.len() ==> v@[i] == empty_character(),
        decreases n - v@.len(),
    {
        v.push(Character::empty());
    }
    assert(v@ =~= padded(s@, n as nat));
    v
}

impl ServerState {
    /// Assembles a quest from the registry without changing it: the party is
    /// the first `MAX_PARTY_SIZE` live characters in slot order, padded with
    /// placeholders; every queued encounter is empty and none is open.
    pub fn init_quest(&self) -> (r: Quest)
        ensures
            r.wf(),
            r.members@ == party_of(self.characters@),
            forall|i: int| 0 <= i < r.encounters@.len() ==> #[trigger] r.encounters@[i] is EmptyEncounter,
            r.open_encounter is None,
    {
        let snap = self.snapshot_characters(MAX_PARTY_SIZE);
        let members = pad(snap, MAX_PARTY_SIZE);
        Quest { members, encounters: empty_encounters(), open_encounter: None }
    }
}

impl ServerState {
    /// Whether a quest assembled now would have a complete party, or how
    /// many real members it would have.
    pub fn party_status(&self) -> (r: PartyStatus)
        ensures
            party_size(self.characters@) == MAX_PARTY_SIZE ==> r == PartyStatus::Complete,
            party_size(self.characters@) < MAX_PARTY_SIZE ==> r == PartyStatus::PartialParty(
                party_size(self.characters@) as usize,
            ),
    {
        let n = self.snapshot_characters(MAX_PARTY_SIZE).len();
        if n == MAX_PARTY_SIZE {
            PartyStatus::Complete
        } else {
            PartyStatus::PartialParty(n)
        }
    }
}

impl Quest {
    /// Opens a combat against `roster`, padded with defeated placeholders to
    /// `MAX_COMBAT_ENEMIES` monsters, at turn zero. Refused when the roster
    /// is empty or too long, or when an encounter is already open.
    pub fn init_combat(&mut self, roster: Vec<Character>) -> (r: Result<(), QuestError>)
        requires
            old(self).wf(),
        ensures
            final(self).wf(),
            final(self).members == old(self).members,
            final(self).encounters == old(self).encounters,
            roster@.len() == 0 || roster@.len() > MAX_COMBAT_ENEMIES ==> r == Err::<(), QuestError>(QuestError::InvalidRoster),
            1 <= roster@.len() <= MAX_COMBAT_ENEMIES && old(self).open_encounter is Some ==> r == Err::<(), QuestError>(QuestError::EncounterOpen),
            r is Err ==> final(self).open_encounter == old(self).open_encounter,
            r is Ok <==> (1 <= roster@.len() <= MAX_COMBAT_ENEMIES && old(self).open_encounter is None),
            r is Ok ==> match final(self).open_encounter {
                Some(Encounter::CombatEncounter(c)) => c.turn == 0 && c.monsters@ == padded(roster@, MAX_COMBAT_ENEMIES as nat),
                _ => false,
            },
    {
        if roster.len() == 0 || roster.len() > MAX_COMBAT_ENEMIES {
            return Err(QuestError::InvalidRoster);
        }
        if self.open_encounter.is_some() {
            return Err(QuestError::EncounterOpen);
        }
        let monsters = pad(roster, MAX_COMBAT_ENEMIES);
        self.open_encounter = Some(Encounter::CombatEncounter(Combat { monsters, turn: 0 }));
        Ok(())
    }

    /// Resolves an open NPC encounter: every member receives its reward, the
    /// encounter closes, and the reward is returned. Refused when the open
    /// encounter is not an NPC encounter.
    pub fn interact(&mut self) -> (r: Result<EncounterReward, QuestError>)
        requires
            old(self).wf(),
        ensures
            final(self).wf(),
            final(self).encounters == old(self).encounters,
            match old(self).open_encounter {
                Some(Encounter::NpcEncounter(w)) => {
                    &&& r == Ok::<EncounterReward, QuestError>(w)
                    &&& final(self).members@ == party_rewarded(old(self).members@, w)
                    &&& final(self).open_encounter is None
                },
                _ => {
                    &&& r == Err::<EncounterReward, QuestError>(QuestError::NoNpcEncounter)
                    &&& final(self).members == old(self).members
                    &&& final(self).open_encounter == old(self).open_encounter
                },
            },
    {
        let w = match &self.open_encounter {
            Some(Encounter::NpcEncounter(w)) => *w,
            _ => {
                return Err(QuestError::NoNpcEncounter);
            },
        };
        reward_party(&mut self.members, w);
        self.open_encounter = None;
        Ok(w)
    }

    /// Resolves a won combat: every member receives `reward` and the combat
    /// closes. Refused when the open encounter is not a combat whose
    /// monsters are all defeated.
    pub fn claim_victory(&mut self, reward: EncounterReward) -> (r: Result<(), QuestError>)
        requires
            old(self).wf(),
        ensures
            final(self).wf(),
            final(self).encounters == old(self).encounters,
            match old(self).open_encounter {
                Some(Encounter::CombatEncounter(c)) if all_defeated(c.monsters@) => {
                    &&& r is Ok
                    &&& final(self).members@ == party_rewarded(old(self).members@, reward)
                    &&& final(self).open_encounter is None
                },
                _ => {
                    &&& r == Err::<(), QuestError>(QuestError::CombatNotWon)
                    &&& final(self).members == old(self).members
                    &&& final(self).open_encounter == old(self).open_encounter
                },
            },
    {
        let won = match &self.open_encounter {
            Some(Encounter::CombatEncounter(c)) => all_monsters_defeated(&c.monsters),
            _ => false,
        };
        if !won {
            return Err(QuestError::CombatNotWon);
        }
        reward_party(&mut self.members, reward);
        self.open_encounter = None;
        Ok(())
    }
}

/// Whether no character of `s` is alive.
pub fn all_monsters_defeated(s: &Vec<Character>) -> (r: bool)
    ensures
        r == all_defeated(s@),
{
    let mut i: usize = 0;
    while i < s.len()
        invariant
            0 <= i <= s@.len(),
            forall|j: int| 0 <= j < i ==> !alive(#[trigger] s@[j]),
        decreases s@.len() - i,
    {
        if s[i].is_alive() {
            return false;
        }
        i = i + 1;
    }
    true
}

} // verus!
