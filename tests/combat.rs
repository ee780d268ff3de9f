use ratback::combat::{CombatError, CombatOutcome, ItemBook, ItemEffect, ItemRule, MONSTER_DAMAGE, WEAPON_DAMAGE};
use ratback::data::{Character, Item};
use ratback::quest_data::{Combat, CombatAction, Encounter, Quest};
use ratback::registry::ServerState;

fn with_health(health: i32) -> Character {
    let mut c = Character::new();
    c.unit.stats.health = health;
    c
}

fn quest_against(monsters: Vec<Character>) -> Quest {
    let mut s = ServerState::new();
    s.create_character().unwrap();
    let mut q = s.init_quest();
    q.init_combat(monsters).unwrap();
    q
}

fn monsters(q: &Quest) -> &Vec<Character> {
    match &q.open_encounter {
        Some(Encounter::CombatEncounter(c)) => &c.monsters,
        _ => panic!("no combat"),
    }
}

fn turn(q: &Quest) -> u16 {
    match &q.open_encounter {
        Some(Encounter::CombatEncounter(c)) => c.turn,
        _ => panic!("no combat"),
    }
}

fn no_items() -> ItemBook {
    ItemBook { rules: vec![] }
}

#[test]
fn weapon_attack_hits_first_living_monster_and_monsters_strike_back() {
    let mut q = quest_against(vec![with_health(0), with_health(9), with_health(9)]);
    let r = q.take_turn(0, &CombatAction::WeaponAttack, &no_items());
    assert_eq!(r, Ok(CombatOutcome::Ongoing));
    let m = monsters(&q);
    assert_eq!(m[0].unit.stats.health, 0);
    assert_eq!(m[1].unit.stats.health, 9 - WEAPON_DAMAGE);
    assert_eq!(m[2].unit.stats.health, 9);
    assert_eq!(q.members[0].unit.stats.health, 10 - 2 * MONSTER_DAMAGE);
    assert_eq!(turn(&q), 1);
}

#[test]
fn health_never_drops_below_zero() {
    let mut q = quest_against(vec![with_health(1)]);
    assert_eq!(q.take_turn(0, &CombatAction::WeaponAttack, &no_items()), Ok(CombatOutcome::Victory));
    assert_eq!(monsters(&q)[0].unit.stats.health, 0);
    assert_eq!(q.take_turn(0, &CombatAction::WeaponAttack, &no_items()), Err(CombatError::CombatOver));
    assert_eq!(monsters(&q)[0].unit.stats.health, 0);
    assert_eq!(turn(&q), 1);
}

#[test]
fn defeated_monster_is_not_a_target() {
    let mut q = quest_against(vec![with_health(1), with_health(20)]);
    q.take_turn(0, &CombatAction::WeaponAttack, &no_items()).unwrap();
    q.take_turn(0, &CombatAction::WeaponAttack, &no_items()).unwrap();
    let m = monsters(&q);
    assert_eq!(m[0].unit.stats.health, 0);
    assert_eq!(m[1].unit.stats.health, 20 - WEAPON_DAMAGE);
}

#[test]
fn unknown_item_is_refused_without_change() {
    let mut q = quest_against(vec![with_health(5)]);
    let before = monsters(&q).clone();
    let r = q.take_turn(0, &CombatAction::UseItem(Item::new("rock".to_string())), &no_items());
    assert_eq!(r, Err(CombatError::UnresolvedAction));
    assert_eq!(monsters(&q), &before);
    assert_eq!(turn(&q), 0);
    assert_eq!(q.members[0].unit.stats.health, 10);
}

#[test]
fn items_follow_the_book() {
    let book = ItemBook {
        rules: vec![
            ItemRule { name: "potion".to_string(), effect: ItemEffect::Heal(3) },
            ItemRule { name: "bomb".to_string(), effect: ItemEffect::Strike(6) },
            ItemRule { name: "potion".to_string(), effect: ItemEffect::Strike(99) },
        ],
    };
    assert_eq!(book.lookup(&"bomb".to_string()), Some(ItemEffect::Strike(6)));
    assert_eq!(book.lookup(&"potion".to_string()), Some(ItemEffect::Heal(3)));
    assert_eq!(book.lookup(&"rock".to_string()), None);

    let mut q = quest_against(vec![with_health(8)]);
    q.take_turn(0, &CombatAction::UseItem(Item::new("bomb".to_string())), &book).unwrap();
    assert_eq!(monsters(&q)[0].unit.stats.health, 2);
    assert_eq!(q.members[0].unit.stats.health, 10 - MONSTER_DAMAGE);
    q.take_turn(0, &CombatAction::UseItem(Item::new("potion".to_string())), &book).unwrap();
    assert_eq!(q.members[0].unit.stats.health, 10 - MONSTER_DAMAGE + 3 - MONSTER_DAMAGE);
    q.members[0].unit.stats.health = 14;
    q.take_turn(0, &CombatAction::UseItem(Item::new("potion".to_string())), &book).unwrap();
    assert_eq!(q.members[0].unit.stats.health, 15 - MONSTER_DAMAGE);
    q.take_turn(0, &CombatAction::UseItem(Item::new("potion".to_string())), &book).unwrap();
    assert_eq!(q.members[0].unit.stats.health, 15 - MONSTER_DAMAGE);
}

#[test]
fn party_can_lose() {
    let mut q = quest_against(vec![with_health(50); 5]);
    q.members[0].unit.stats.health = 3;
    assert_eq!(q.take_turn(0, &CombatAction::WeaponAttack, &no_items()), Ok(CombatOutcome::Defeat));
    assert_eq!(q.members[0].unit.stats.health, 0);
    assert_eq!(q.take_turn(0, &CombatAction::WeaponAttack, &no_items()), Err(CombatError::ActorDefeated));
}

#[test]
fn refused_turns() {
    let mut q = ServerState::new().init_quest();
    assert_eq!(q.take_turn(0, &CombatAction::WeaponAttack, &no_items()), Err(CombatError::NoCombat));
    let mut q = quest_against(vec![with_health(5)]);
    assert_eq!(q.take_turn(3, &CombatAction::WeaponAttack, &no_items()), Err(CombatError::InvalidActor));
    assert_eq!(q.take_turn(1, &CombatAction::WeaponAttack, &no_items()), Err(CombatError::ActorDefeated));
    q.open_encounter = Some(Encounter::CombatEncounter(Combat { monsters: vec![with_health(5); 5], turn: u16::MAX }));
    assert_eq!(q.take_turn(0, &CombatAction::WeaponAttack, &no_items()), Err(CombatError::TurnLimit));
}
