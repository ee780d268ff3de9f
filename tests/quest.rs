use ratback::data::{Character, Item};
use ratback::quest::{PartyStatus, QuestError};
use ratback::quest_data::{Combat, CombatAction, Encounter, EncounterReward, Quest};
use ratback::registry::ServerState;

fn monster(health: i32) -> Character {
    let mut c = Character::new();
    c.unit.stats.health = health;
    c
}

#[test]
fn alice_scenario() {
    let mut s = ServerState::new();
    let u = s.register_user("alice".to_string()).unwrap();
    assert_eq!(u.username, "alice");
    assert!(u.characters.is_empty());
    let stored = s.users[0].as_ref().unwrap();
    assert_eq!(stored.username, "alice");
    assert!(stored.characters.is_empty());
    assert!(s.users[1..].iter().all(|x| x.is_none()));

    let c = s.create_character().unwrap();
    assert_eq!(s.characters[0], Some(c));
    assert!(s.characters[1..].iter().all(|x| x.is_none()));
    assert_eq!(c.unit.stats.health, 10);
    assert_eq!(c.unit.stats.energy, 10);
    assert_eq!(c.experience, 0);
    assert_eq!(c.coins, 0);

    let q = s.init_quest();
    assert_eq!(q.members.len(), 3);
    assert_eq!(q.members[0], c);
    assert_eq!(q.members[1], Character::default());
    assert_eq!(q.members[2], Character::default());
    assert_eq!(q.encounters.len(), 3);
    assert!(q.encounters.iter().all(|e| matches!(e, Encounter::EmptyEncounter)));
    assert!(q.open_encounter.is_none());
}

#[test]
fn party_is_capped_at_three() {
    let mut s = ServerState::new();
    for n in 0..5u32 {
        let mut c = Character::new();
        c.coins = n;
        s.allocate_character(c).unwrap();
    }
    let q = s.init_quest();
    assert_eq!(q.members.len(), 3);
    assert_eq!(q.members.iter().map(|c| c.coins).collect::<Vec<_>>(), vec![0, 1, 2]);
}

#[test]
fn quest_from_empty_registry_has_placeholders_only() {
    let s = ServerState::new();
    let q = s.init_quest();
    assert!(q.members.iter().all(|c| *c == Character::default()));
}

#[test]
fn init_combat_pads_roster() {
    let mut q = ServerState::new().init_quest();
    assert_eq!(q.init_combat(vec![monster(3), monster(4)]), Ok(()));
    match &q.open_encounter {
        Some(Encounter::CombatEncounter(c)) => {
            assert_eq!(c.turn, 0);
            assert_eq!(c.monsters.len(), 5);
            assert_eq!(c.monsters[0], monster(3));
            assert_eq!(c.monsters[1], monster(4));
            assert_eq!(c.monsters[4], Character::default());
        }
        _ => panic!("combat not opened"),
    }
    assert_eq!(q.init_combat(vec![monster(1)]), Err(QuestError::EncounterOpen));
}

#[test]
fn init_combat_rejects_bad_rosters() {
    let mut q = ServerState::new().init_quest();
    assert_eq!(q.init_combat(vec![]), Err(QuestError::InvalidRoster));
    assert_eq!(q.init_combat(vec![monster(1); 6]), Err(QuestError::InvalidRoster));
    assert!(q.open_encounter.is_none());
}

#[test]
fn npc_reward_goes_to_every_member() {
    let mut s = ServerState::new();
    s.create_character().unwrap();
    let mut q = s.init_quest();
    q.open_encounter = Some(Encounter::NpcEncounter(EncounterReward::CoinAndExperienceReward(7, 11)));
    assert_eq!(q.interact(), Ok(EncounterReward::CoinAndExperienceReward(7, 11)));
    assert!(q.open_encounter.is_none());
    assert!(q.members.iter().all(|c| c.coins == 7 && c.experience == 11));
    assert_eq!(q.interact(), Err(QuestError::NoNpcEncounter));
}

#[test]
fn rewards_saturate() {
    let mut q = ServerState::new().init_quest();
    q.members[0].coins = u32::MAX - 1;
    q.open_encounter = Some(Encounter::NpcEncounter(EncounterReward::CoinReward(5)));
    q.interact().unwrap();
    assert_eq!(q.members[0].coins, u32::MAX);
    assert_eq!(q.members[1].coins, 5);
}

#[test]
fn victory_is_claimed_only_when_won() {
    let mut q = ServerState::new().init_quest();
    assert_eq!(q.claim_victory(EncounterReward::ExperienceReward(3)), Err(QuestError::CombatNotWon));
    q.open_encounter = Some(Encounter::CombatEncounter(Combat { monsters: vec![monster(2); 5], turn: 0 }));
    assert_eq!(q.claim_victory(EncounterReward::ExperienceReward(3)), Err(QuestError::CombatNotWon));
    q.open_encounter = Some(Encounter::CombatEncounter(Combat { monsters: vec![monster(0); 5], turn: 4 }));
    assert_eq!(q.claim_victory(EncounterReward::ExperienceReward(3)), Ok(()));
    assert!(q.open_encounter.is_none());
    assert!(q.members.iter().all(|c| c.experience == 3));
}

#[test]
fn quest_values_are_plain_data() {
    let q = Quest {
        members: vec![Character::new(); 3],
        encounters: vec![Encounter::EmptyEncounter; 3],
        open_encounter: None,
    };
    let action = CombatAction::UseItem(Item::new("potion".to_string()));
    assert!(matches!(action, CombatAction::UseItem(ref i) if i.name == "potion"));
    assert_eq!(q.clone().members, q.members);
}

#[test]
fn party_status_reports_partial_parties() {
    let mut s = ServerState::new();
    assert_eq!(s.party_status(), PartyStatus::PartialParty(0));
    s.create_character().unwrap();
    assert_eq!(s.party_status(), PartyStatus::PartialParty(1));
    s.create_character().unwrap();
    s.create_character().unwrap();
    assert_eq!(s.party_status(), PartyStatus::Complete);
    s.create_character().unwrap();
    assert_eq!(s.party_status(), PartyStatus::Complete);
}
