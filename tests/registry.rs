use ratback::data::{Character, Stats, Unit};
use ratback::registry::{RegistryError, ServerState, REGISTRY_CAPACITY};

fn marked(coins: u32) -> Character {
    let mut c = Character::new();
    c.coins = coins;
    c
}

#[test]
fn level_one_defaults() {
    let u = Unit::new_lvl_one();
    assert_eq!(u.stats, Stats { health: 10, energy: 10 });
    assert_eq!(u.max_stats, Stats { health: 15, energy: 15 });
    let c = Character::new();
    assert_eq!(c.unit, u);
    assert_eq!(c.experience, 0);
    assert_eq!(c.coins, 0);
}

#[test]
fn default_character_is_all_zero() {
    let c = Character::default();
    assert_eq!(c.unit.stats, Stats { health: 0, energy: 0 });
    assert_eq!(c.unit.max_stats, Stats { health: 0, energy: 0 });
    assert_eq!(c.experience, 0);
    assert_eq!(c.coins, 0);
}

#[test]
fn allocation_fills_every_slot_then_reports_full() {
    let mut s = ServerState::new();
    for n in 0..REGISTRY_CAPACITY {
        assert_eq!(s.allocate_character(marked(n as u32)), Ok(n));
    }
    assert_eq!(s.allocate_character(Character::new()), Err(RegistryError::Full));
    for n in 0..REGISTRY_CAPACITY {
        assert_eq!(s.characters[n], Some(marked(n as u32)));
    }
}

#[test]
fn allocation_takes_lowest_gap() {
    let mut s = ServerState::new();
    s.characters[0] = Some(marked(1));
    s.characters[2] = Some(marked(2));
    assert_eq!(s.allocate_character(marked(3)), Ok(1));
    assert_eq!(s.allocate_character(marked(4)), Ok(3));
    assert_eq!(s.characters[2], Some(marked(2)));
}

#[test]
fn users_fill_up_independently_of_characters() {
    let mut s = ServerState::new();
    for n in 0..REGISTRY_CAPACITY {
        let u = s.register_user(format!("user{}", n)).unwrap();
        assert_eq!(u.id, n as i32);
    }
    assert!(matches!(s.register_user("late".to_string()), Err(RegistryError::Full)));
    assert_eq!(s.create_character(), Ok(Character::new()));
    assert_eq!(s.characters[0], Some(Character::new()));
}

#[test]
fn snapshot_skips_gaps_in_slot_order() {
    let mut s = ServerState::new();
    s.characters[7] = Some(marked(7));
    s.characters[2] = Some(marked(2));
    s.characters[5] = Some(marked(5));
    assert_eq!(s.snapshot_characters(3), vec![marked(2), marked(5), marked(7)]);
    assert_eq!(s.snapshot_characters(2), vec![marked(2), marked(5)]);
    assert_eq!(s.snapshot_characters(10), vec![marked(2), marked(5), marked(7)]);
    assert_eq!(s.snapshot_characters(0), vec![]);
}

#[test]
fn character_full_registry() {
    let mut s = ServerState::new();
    for _ in 0..REGISTRY_CAPACITY {
        assert!(s.create_character().is_ok());
    }
    assert_eq!(s.create_character(), Err(RegistryError::Full));
    assert_eq!(s.snapshot_characters(REGISTRY_CAPACITY + 1).len(), REGISTRY_CAPACITY);
}
