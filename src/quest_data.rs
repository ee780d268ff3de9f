use vstd::prelude::*;

use crate::data::{Character, Item, MAX_COMBAT_ENEMIES, MAX_ENCOUNTER_LENGTH, MAX_PARTY_SIZE};

verus! {

/// A fight: a roster of monster slots and the number of turns taken so far.
#[derive(Clone, Debug)]
pub struct Combat {
    pub monsters: Vec<Character>,
    pub turn: u16,
}

/// One step of a quest.
#[derive(Clone, Debug)]
pub enum Encounter {
    EmptyEncounter,
    CombatEncounter(Combat),
    NpcEncounter(EncounterReward),
}

/// What the party earns when an encounter is resolved.
#[derive(Clone, Copy, Debug, PartialEq, Eq, Structural)]
pub enum EncounterReward {
    NoReward,
    CoinReward(u32),
    ExperienceReward(u32),
    CoinAndExperienceReward(u32, u32),
}

/// A party snapshot, its queued encounters and the encounter in progress.
#[derive(Clone, Debug)]
pub struct Quest {
    pub members: Vec<Character>,
    pub encounters: Vec<Encounter>,
    pub open_encounter: Option<Encounter>,
}

/// What a party member does on its turn.
#[derive(Clone, Debug)]
pub enum CombatAction {
    WeaponAttack,
    UseItem(Item),
}

impl Combat {
    /// The roster has exactly one slot per possible monster.
    pub open spec fn wf(&self) -> bool {
        self.monsters@.len() == MAX_COMBAT_ENEMIES
    }
}

impl Encounter {
    /// A combat encounter holds a well-formed fight.
    pub open spec fn wf(&self) -> bool {
        match self {
            Encounter::CombatEncounter(c) => c.wf(),
            _ => true,
        }
    }
}

impl Quest {
    /// Fixed party and encounter lengths; every encounter is well formed.
    pub open spec fn wf(&self) -> bool {
        &&& self.members@.len() == MAX_PARTY_SIZE
        &&& self.encounters@.len() == MAX_ENCOUNTER_LENGTH
        &&& forall|i: int| 0 <= i < self.encounters@.len() ==> (#[trigger] self.encounters@[i]).wf()
        &&& match self.open_encounter {
            Some(e) => e.wf(),
            None => true,
        }
    }
}

/// The structure of an encounter, as a mathematical value.
pub enum EncounterView {
    Empty,
    Combat(Seq<Character>, u16),
    Npc(EncounterReward),
}

/// The structure of a quest, as a mathematical value.
pub struct QuestView {
    pub members: Seq<Character>,
    pub encounters: Seq<EncounterView>,
    pub open_encounter: Option<EncounterView>,
}

impl View for Encounter {
    type V = EncounterView;

    open spec fn view(&self) -> EncounterView {
        match self {
            Encounter::EmptyEncounter => EncounterView::Empty,
            Encounter::CombatEncounter(c) => EncounterView::Combat(c.monsters@, c.turn),
            Encounter::NpcEncounter(r) => EncounterView::Npc(*r),
        }
    }
}

/// The view of an optional encounter.
pub open spec fn option_view(e: Option<Encounter>) -> Option<EncounterView> {
    match e {
        Some(x) => Some(x@),
        None => None,
    }
}

impl View for Quest {
    type V = QuestView;

    open spec fn view(&self) -> QuestView {
        QuestView {
            members: self.members@,
            encounters: Seq::new(self.encounters@.len(), |i: int| self.encounters@[i]@),
            open_encounter: option_view(self.open_encounter),
        }
    }
}

impl EncounterView {
    /// A combat holds exactly `MAX_COMBAT_ENEMIES` monsters.
    pub open spec fn wf(self) -> bool {
        match self {
            EncounterView::Combat(m, _) => m.len() == MAX_COMBAT_ENEMIES,
            _ => true,
        }
    }
}

impl QuestView {
    /// Fixed party and encounter lengths; every encounter is well formed.
    pub open spec fn wf(self) -> bool {
        &&& self.members.len() == MAX_PARTY_SIZE
        &&& self.encounters.len() == MAX_ENCOUNTER_LENGTH
        &&& forall|i: int| 0 <= i < self.encounters.len() ==> (#[trigger] self.encounters[i]).wf()
        &&& match self.open_encounter {
            Some(e) => e.wf(),
            None => true,
        }
    }
}

/// A well-formed quest has a well-formed view.
pub proof fn lemma_quest_view_wf(q: Quest)
    requires
        q.wf(),
    ensures
        q@.wf(),
{
    assert forall|i: int| 0 <= i < q@.encounters.len() implies (#[trigger] q@.encounters[i]).wf() by {
        assert(q.encounters@[i].wf());
    }
}

} // verus!
