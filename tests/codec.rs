use ratback::codec::{decode_quest, encode_quest, QUEST_WORDS};
use ratback::data::Character;
use ratback::quest_data::{Combat, Encounter, EncounterReward, Quest};

fn sample() -> Quest {
    let mut hero = Character::new();
    hero.coins = 12;
    hero.experience = 34;
    hero.unit.stats.health = -3;
    let mut boss = Character::new();
    boss.unit.max_stats.energy = i32::MAX;
    boss.coins = u32::MAX;
    Quest {
        members: vec![hero, Character::default(), Character::new()],
        encounters: vec![
            Encounter::NpcEncounter(EncounterReward::CoinAndExperienceReward(5, 9)),
            Encounter::EmptyEncounter,
            Encounter::CombatEncounter(Combat { monsters: vec![boss; 5], turn: 2 }),
        ],
        open_encounter: Some(Encounter::CombatEncounter(Combat {
            monsters: vec![boss, hero, Character::default(), boss, hero],
            turn: u16::MAX,
        })),
    }
}

fn same(a: &Quest, b: &Quest) -> bool {
    format!("{:?}", a) == format!("{:?}", b)
}

#[test]
fn quest_round_trip() {
    let q = sample();
    let w = encode_quest(&q);
    assert_eq!(w.len(), QUEST_WORDS);
    let back = decode_quest(&w).expect("decodes");
    assert!(same(&q, &back));
}

#[test]
fn fresh_quest_round_trip() {
    let q = ratback::registry::ServerState::new().init_quest();
    let back = decode_quest(&encode_quest(&q)).expect("decodes");
    assert!(same(&q, &back));
    assert!(back.open_encounter.is_none());
}

#[test]
fn encoding_layout() {
    let w = encode_quest(&sample());
    assert_eq!(&w[0..6], &[-3, 10, 15, 15, 34, 12]);
    assert_eq!(&w[18..22], &[2, 3, 5, 9]);
    assert_eq!(w[50], 0);
    assert_eq!(w[82], 1);
    assert_eq!(w[113], 2);
    assert_eq!(w[114], 1);
    assert_eq!(w[146], u16::MAX as i64);
}

#[test]
fn malformed_words_are_refused() {
    let w = encode_quest(&sample());
    assert!(decode_quest(&w[..QUEST_WORDS - 1].to_vec()).is_none());
    let mut bad_tag = w.clone();
    bad_tag[18] = 7;
    assert!(decode_quest(&bad_tag).is_none());
    let mut bad_coins = w.clone();
    bad_coins[5] = -1;
    assert!(decode_quest(&bad_coins).is_none());
    let mut bad_health = w.clone();
    bad_health[0] = i64::from(i32::MAX) + 1;
    assert!(decode_quest(&bad_health).is_none());
    let mut bad_open = w;
    bad_open[114] = 2;
    assert!(decode_quest(&bad_open).is_none());
}
