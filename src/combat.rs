use vstd::prelude::*;

use crate::data::{alive, Character, Stats, Unit, MAX_PARTY_SIZE};
use crate::quest::{all_defeated, all_monsters_defeated};
use crate::quest_data::{Combat, CombatAction, Encounter, Quest};

verus! {

/// Damage a weapon attack deals to its target.
pub const WEAPON_DAMAGE: i32 = 4;

/// Damage each living monster deals when it strikes back.
pub const MONSTER_DAMAGE: i32 = 2;

/// What using an item does.
#[derive(Clone, Copy, Debug, PartialEq, Eq, Structural)]
pub enum ItemEffect {
    /// Restores health to the user, up to its ceiling.
    Heal(u16),
    /// Deals damage to the first living monster.
    Strike(u16),
}

/// One entry of an item book: the effect of the items with this name.
#[derive(Clone, Debug)]
pub struct ItemRule {
    pub name: String,
    pub effect: ItemEffect,
}

/// The effects of items, looked up by item name. The first rule with a
/// matching name decides.
#[derive(Clone, Debug)]
pub struct ItemBook {
    pub rules: Vec<ItemRule>,
}

/// How a combat stands after a turn.
#[derive(Clone, Copy, Debug, PartialEq, Eq, Structural)]
pub enum CombatOutcome {
    Ongoing,
    /// Every monster is defeated.
    Victory,
    /// Every party member is defeated.
    Defeat,
}

/// Why a turn was refused. A refused turn leaves the quest unchanged.
#[derive(Clone, Copy, Debug, PartialEq, Eq, Structural)]
pub enum CombatError {
    /// The open encounter is not a combat.
    NoCombat,
    /// The acting index is not a party slot.
    InvalidActor,
    /// The acting member is defeated.
    ActorDefeated,
    /// Every monster is already defeated.
    CombatOver,
    /// The turn counter is at its maximum.
    TurnLimit,
    /// The item has no effect in the item book.
    UnresolvedAction,
}

/// The effect of the first rule of `rules` named `name`, if any.
pub open spec fn effect_of(rules: Seq<ItemRule>, name: Seq<char>) -> Option<ItemEffect>
    decreases rules.len(),
{
    if rules.len() == 0 {
        None
    } else if rules[0].name@ == name {
        Some(rules[0].effect)
    } else {
        effect_of(rules.subrange(1, rules.len() as int), name)
    }
}

/// `i` is the lowest index of a living character of `s`.
pub open spec fn is_first_living(s: Seq<Character>, i: int) -> bool {
    &&& 0 <= i < s.len()
    &&& alive(s[i])
    &&& forall|j: int| 0 <= j < i ==> !alive(#[trigger] s[j])
}

/// `c` after taking `dmg` damage; health does not drop below zero.
pub open spec fn struck(c: Character, dmg: int) -> Character {
    let h = c.unit.stats.health - dmg;
    Character {
        unit: Unit { stats: Stats { health: if h < 0 { 0 } else { h as i32 }, ..c.unit.stats }, ..c.unit },
        ..c
    }
}

/// `c` after healing `n`: health rises by `n` but not past its ceiling,
/// and never falls.
pub open spec fn healed(c: Character, n: int) -> Character {
    let h = c.unit.stats.health;
    let m = c.unit.max_stats.health;
    let nh = if h >= m { h as int } else if h + n > m { m as int } else { h + n };
    Character { unit: Unit { stats: Stats { health: nh as i32, ..c.unit.stats }, ..c.unit }, ..c }
}

/// `s` after its first living character takes `dmg` damage; unchanged when
/// none is alive.
pub open spec fn strike_first(s: Seq<Character>, dmg: int) -> Seq<Character> {
    if exists|i: int| is_first_living(s, i) {
        let i = choose|i: int| is_first_living(s, i);
        s.update(i, struck(s[i], dmg))
    } else {
        s
    }
}

/// `s` after `k` successive strikes of `dmg`, each at the first living character.
pub open spec fn strikes(s: Seq<Character>, k: nat, dmg: int) -> Seq<Character>
    decreases k,
{
    if k == 0 {
        s
    } else {
        strike_first(strikes(s, (k - 1) as nat, dmg), dmg)
    }
}

/// Number of living characters of `s`.
pub open spec fn living_count(s: Seq<Character>) -> nat
    decreases s.len(),
{
    if s.len() == 0 {
        0
    } else {
        living_count(s.drop_last()) + if alive(s.last()) {
            1nat
        } else {
            0nat
        }
    }
}

/// The outcome of a combat between `party` and `monsters`.
pub open spec fn outcome_of(party: Seq<Character>, monsters: Seq<Character>) -> CombatOutcome {
    if all_defeated(monsters) {
        CombatOutcome::Victory
    } else if all_defeated(party) {
        CombatOutcome::Defeat
    } else {
        CombatOutcome::Ongoing
    }
}

/// Party and monsters after the action of party member `actor`, or the
/// error that refuses it; the acting member is assumed alive and some
/// monster alive.
pub open spec fn party_action(
    party: Seq<Character>,
    monsters: Seq<Character>,
    actor: int,
    action: CombatAction,
    rules: Seq<ItemRule>,
) -> Result<(Seq<Character>, Seq<Character>), CombatError> {
    match action {
        CombatAction::WeaponAttack => Ok((party, strike_first(monsters, WEAPON_DAMAGE as int))),
        CombatAction::UseItem(item) => match effect_of(rules, item.name@) {
            None => Err(CombatError::UnresolvedAction),
            Some(ItemEffect::Heal(n)) => Ok((party.update(actor, healed(party[actor], n as int)), monsters)),
            Some(ItemEffect::Strike(n)) => Ok((party, strike_first(monsters, n as int))),
        },
    }
}

/// The error, if any, that refuses a turn before the action is looked at.
pub open spec fn turn_precheck(q: Quest, actor: int) -> Option<CombatError> {
    match q.open_encounter {
        Some(Encounter::CombatEncounter(c)) => if !(0 <= actor < q.members@.len()) {
            Some(CombatError::InvalidActor)
        } else if !alive(q.members@[actor]) {
            Some(CombatError::ActorDefeated)
        } else if all_defeated(c.monsters@) {
            Some(CombatError::CombatOver)
        } else if c.turn == u16::MAX {
            Some(CombatError::TurnLimit)
        } else {
            None
        },
        _ => Some(CombatError::NoCombat),
    }
}

impl ItemBook {
    /// The effect of the first rule named `name`, if any.
    pub fn lookup(&self, name: &String) -> (r: Option<ItemEffect>)
        ensures
            r == effect_of(self.rules@, name@),
    {
        let mut i: usize = 0;
        assert(self.rules@.subrange(0, self.rules@.len() as int) =~= self.rules@);
        while i < self.rules.len()
            invariant
                0 <= i <= self.rules@.len(),
                effect_of(self.rules@, name@) == effect_of(
                    self.rules@.subrange(i as int, self.rules@.len() as int),
                    name@,
                ),
            decreases self.rules@.len() - i,
        {
            let ghost rest = self.rules@.subrange(i as int, self.rules@.len() as int);
            assert(rest.subrange(1, rest.len() as int) =~= self.rules@.subrange(
                i as int + 1,
                self.rules@.len() as int,
            ));
            if self.rules[i].name == *name {
                return Some(self.rules[i].effect);
            }
            i = i + 1;
        }
        None
    }
}

/// The index of the first living character of `s`, if any.
pub fn first_living(s: &Vec<Character>) -> (r: Option<usize>)
    ensures
        match r {
            Some(i) => is_first_living(s@, i as int),
            None => all_defeated(s@),
        },
{
    let mut i: usize = 0;
    while i < s.len()
        invariant
            0 <= i <= s@.len(),
            forall|j: int| 0 <= j < i ==> !alive(#[trigger] s@[j]),
        decreases s@.len() - i,
    {
        if s[i].is_alive() {
            return Some(i);
        }
        i = i + 1;
    }
    None
}

/// `c` after taking `dmg` damage, health clamped at zero.
pub fn strike(c: Character, dmg: i32) -> (r: Character)
    requires
        0 <= dmg,
        c.unit.stats.health > 0,
    ensures
        r == struck(c, dmg as int),
{
    let h = c.unit.stats.health - dmg;
    let nh = if h < 0 { 0 } else { h };
    Character { unit: Unit { stats: Stats { health: nh, ..c.unit.stats }, ..c.unit }, ..c }
}

/// `c` after healing `n`, up to its health ceiling.
pub fn heal(c: Character, n: u16) -> (r: Character)
    ensures
        r == healed(c, n as int),
{
    let h = c.unit.stats.health;
    let m = c.unit.max_stats.health;
    let nh: i32 = if h >= m {
        h
    } else if (h as i64) + (n as i64) > (m as i64) {
        m
    } else {
        h + n as i32
    };
    Character { unit: Unit { stats: Stats { health: nh, ..c.unit.stats }, ..c.unit }, ..c }
}

/// Strikes the first living character of `s` with `dmg` damage; nothing
/// happens when none is alive.
pub fn strike_first_living(s: &mut Vec<Character>, dmg: i32)
    requires
        0 <= dmg,
    ensures
        final(s)@ == strike_first(old(s)@, dmg as int),
{
    match first_living(s) {
        Some(i) => {
            let ghost k = choose|k: int| is_first_living(old(s)@, k);
            assert(k == i as int);
            let c = strike(s[i], dmg);
            s[i] = c;
        },
        None => {
            assert(!exists|k: int| is_first_living(old(s)@, k));
        },
    }
}

/// Striking repeatedly never drives health below zero and never touches a
/// defeated character: after any number of strikes of non-negative damage,
/// a health that was at least zero is still at least zero, and a character
/// that was not alive is exactly as it was.
pub proof fn lemma_strikes_clamp(s: Seq<Character>, k: nat, dmg: int)
    requires
        dmg >= 0,
    ensures
        strikes(s, k, dmg).len() == s.len(),
        forall|i: int|
            0 <= i < s.len() && s[i].unit.stats.health >= 0 ==> #[trigger] strikes(s, k, dmg)[i].unit.stats.health >= 0,
        forall|i: int| 0 <= i < s.len() && !alive(s[i]) ==> #[trigger] strikes(s, k, dmg)[i] == s[i],
    decreases k,
{
    if k > 0 {
        lemma_strikes_clamp(s, (k - 1) as nat, dmg);
        let t = strikes(s, (k - 1) as nat, dmg);
        if exists|i: int| is_first_living(t, i) {
            let j = choose|i: int| is_first_living(t, i);
            assert(strikes(s, k, dmg) == t.update(j, struck(t[j], dmg)));
        }
    }
}

/// Each living monster of `monsters`, in roster order, strikes the first
/// living member of `party` for `MONSTER_DAMAGE`.
pub fn counter_attack(party: &mut Vec<Character>, monsters: &Vec<Character>)
    ensures
        final(party)@ == strikes(old(party)@, living_count(monsters@), MONSTER_DAMAGE as int),
{
    let mut m: usize = 0;
    while m < monsters.len()
        invariant
            0 <= m <= monsters@.len(),
            party@ == strikes(old(party)@, living_count(monsters@.take(m as int)), MONSTER_DAMAGE as int),
        decreases monsters@.len() - m,
    {
        assert(monsters@.take(m as int + 1).drop_last() =~= monsters@.take(m as int));
        if monsters[m].is_alive() {
            strike_first_living(party, MONSTER_DAMAGE);
        }
        m = m + 1;
    }
    assert(monsters@.take(m as int) =~= monsters@);
}

/// The monsters of the quest's open combat; empty when no combat is open.
pub open spec fn open_monsters(q: Quest) -> Seq<Character> {
    match q.open_encounter {
        Some(Encounter::CombatEncounter(c)) => c.monsters@,
        _ => Seq::empty(),
    }
}

/// The turn counter of the quest's open combat; zero when no combat is open.
pub open spec fn open_turn(q: Quest) -> u16 {
    match q.open_encounter {
        Some(Encounter::CombatEncounter(c)) => c.turn,
        _ => 0,
    }
}

impl Quest {
    /// The error, if any, that refuses a turn of `actor` before its action
    /// is looked at.
    pub fn precheck_turn(&self, actor: usize) -> (r: Option<CombatError>)
        ensures
            r == turn_precheck(*self, actor as int),
    {
        match &self.open_encounter {
            Some(Encounter::CombatEncounter(c)) => {
                if actor >= self.members.len() {
                    Some(CombatError::InvalidActor)
                } else if !self.members[actor].is_alive() {
                    Some(CombatError::ActorDefeated)
                } else if all_monsters_defeated(&c.monsters) {
                    Some(CombatError::CombatOver)
                } else if c.turn == u16::MAX {
                    Some(CombatError::TurnLimit)
                } else {
                    None
                }
            },
            _ => Some(CombatError::NoCombat),
        }
    }

    /// Plays one turn of the open combat. Party member `actor` acts first: a
    /// weapon attack deals `WEAPON_DAMAGE` to the first living monster; an
    /// item does what the book says for its name. Then each living monster,
    /// in roster order, strikes the first living member for
    /// `MONSTER_DAMAGE`. Health is clamped at zero. The turn counter rises by
    /// one and the resulting outcome is reported. A refused turn changes
    /// nothing.
    pub fn take_turn(&mut self, actor: usize, action: &CombatAction, book: &ItemBook) -> (r: Result<
        CombatOutcome,
        CombatError,
    >)
        requires
            old(self).wf(),
        ensures
            final(self).wf(),
            final(self).encounters == old(self).encounters,
            match turn_precheck(*old(self), actor as int) {
                Some(e) => r == Err::<CombatOutcome, CombatError>(e) && *final(self) == *old(self),
                None => match party_action(
                    old(self).members@,
                    open_monsters(*old(self)),
                    actor as int,
                    *action,
                    book.rules@,
                ) {
                    Err(e) => r == Err::<CombatOutcome, CombatError>(e) && *final(self) == *old(self),
                    Ok((p, m)) => {
                        let party = strikes(p, living_count(m), MONSTER_DAMAGE as int);
                        &&& final(self).members@ == party
                        &&& final(self).open_encounter is Some
                        &&& final(self).open_encounter->Some_0 is CombatEncounter
                        &&& open_monsters(*final(self)) == m
                        &&& open_turn(*final(self)) == open_turn(*old(self)) + 1
                        &&& r == Ok::<CombatOutcome, CombatError>(outcome_of(party, m))
                    },
                },
            },
    {
        match self.precheck_turn(actor) {
            Some(e) => {
                return Err(e);
            },
            None => {},
        }
        let effect = match action {
            CombatAction::WeaponAttack => None,
            CombatAction::UseItem(item) => match book.lookup(&item.name) {
                None => {
                    return Err(CombatError::UnresolvedAction);
                },
                Some(f) => Some(f),
            },
        };
        let open = self.open_encounter.take();
        let mut combat = match open {
            Some(Encounter::CombatEncounter(c)) => c,
            _ => {
                self.open_encounter = open;
                return Err(CombatError::NoCombat);
            },
        };
        match effect {
            None => strike_first_living(&mut combat.monsters, WEAPON_DAMAGE),
            Some(ItemEffect::Strike(n)) => strike_first_living(&mut combat.monsters, n as i32),
            Some(ItemEffect::Heal(n)) => {
                let c = heal(self.members[actor], n);
                self.members[actor] = c;
            },
        }
        proof {
            lemma_strikes_clamp(self.members@, living_count(combat.monsters@), MONSTER_DAMAGE as int);
        }
        counter_attack(&mut self.members, &combat.monsters);
        combat.turn = combat.turn + 1;
        let outcome = if all_monsters_defeated(&combat.monsters) {
            CombatOutcome::Victory
        } else if all_monsters_defeated(&self.members) {
            CombatOutcome::Defeat
        } else {
            CombatOutcome::Ongoing
        };
        self.open_encounter = Some(Encounter::CombatEncounter(combat));
        Ok(outcome)
    }
}

} // verus!
