use vstd::prelude::*;

use crate::data::{Character, Stats, Unit};
use crate::quest_data::{
    lemma_quest_view_wf, Combat, Encounter, EncounterReward, EncounterView, Quest, QuestView,
};

verus! {

/// Words taken by one character.
pub const CHARACTER_WORDS: usize = 6;

/// Words taken by one encounter: a tag and room for the largest payload.
pub const ENCOUNTER_WORDS: usize = 32;

/// Words taken by a whole quest: three members, three encounters, and a tag
/// followed by the open encounter.
pub const QUEST_WORDS: usize = 147;

/// `n` zero words.
pub open spec fn zeros(n: nat) -> Seq<i64> {
    Seq::new(n, |i: int| 0i64)
}

/// The words of a character.
#[verifier::opaque]
pub open spec fn character_words(c: Character) -> Seq<i64> {
    seq![
        c.unit.stats.health as i64,
        c.unit.stats.energy as i64,
        c.unit.max_stats.health as i64,
        c.unit.max_stats.energy as i64,
        c.experience as i64,
        c.coins as i64,
    ]
}

/// The words of a reward: a tag and two amounts.
pub open spec fn reward_words(r: EncounterReward) -> Seq<i64> {
    match r {
        EncounterReward::NoReward => seq![0i64, 0i64, 0i64],
        EncounterReward::CoinReward(n) => seq![1i64, n as i64, 0i64],
        EncounterReward::ExperienceReward(x) => seq![2i64, x as i64, 0i64],
        EncounterReward::CoinAndExperienceReward(n, x) => seq![3i64, n as i64, x as i64],
    }
}

/// The words of a roster of five monsters.
pub open spec fn roster_words(m: Seq<Character>) -> Seq<i64> {
    character_words(m[0]) + character_words(m[1]) + character_words(m[2]) + character_words(m[3])
        + character_words(m[4])
}

/// The words of an encounter: a tag, then its payload padded with zeros.
#[verifier::opaque]
pub open spec fn encounter_words(e: EncounterView) -> Seq<i64> {
    match e {
        EncounterView::Empty => seq![0i64] + zeros(31),
        EncounterView::Combat(m, t) => seq![1i64] + roster_words(m) + seq![t as i64],
        EncounterView::Npc(r) => seq![2i64] + reward_words(r) + zeros(28),
    }
}

/// The words of the open encounter: a tag, then the encounter or zeros.
pub open spec fn open_words(e: Option<EncounterView>) -> Seq<i64> {
    match e {
        None => seq![0i64] + zeros(ENCOUNTER_WORDS as nat),
        Some(x) => seq![1i64] + encounter_words(x),
    }
}

/// The words of a well-formed quest.
pub open spec fn quest_words(q: QuestView) -> Seq<i64> {
    character_words(q.members[0]) + character_words(q.members[1]) + character_words(q.members[2])
        + encounter_words(q.encounters[0]) + encounter_words(q.encounters[1]) + encounter_words(
        q.encounters[2],
    ) + open_words(q.open_encounter)
}

/// `x` fits in an `i32`.
pub open spec fn fits_i32(x: i64) -> bool {
    i32::MIN <= x <= i32::MAX
}

/// `x` fits in a `u32`.
pub open spec fn fits_u32(x: i64) -> bool {
    0 <= x <= u32::MAX
}

/// The character stored at `off`, if its words are in range.
pub open spec fn character_at(w: Seq<i64>, off: int) -> Option<Character> {
    if fits_i32(w[off]) && fits_i32(w[off + 1]) && fits_i32(w[off + 2]) && fits_i32(w[off + 3])
        && fits_u32(w[off + 4]) && fits_u32(w[off + 5]) {
        Some(
            Character {
                unit: Unit {
                    stats: Stats { health: w[off] as i32, energy: w[off + 1] as i32 },
                    max_stats: Stats { health: w[off + 2] as i32, energy: w[off + 3] as i32 },
                },
                experience: w[off + 4] as u32,
                coins: w[off + 5] as u32,
            },
        )
    } else {
        None
    }
}

/// The reward stored at `off`, if its tag is known and its amounts in range.
pub open spec fn reward_at(w: Seq<i64>, off: int) -> Option<EncounterReward> {
    if !fits_u32(w[off + 1]) || !fits_u32(w[off + 2]) {
        None
    } else if w[off] == 0 {
        Some(EncounterReward::NoReward)
    } else if w[off] == 1 {
        Some(EncounterReward::CoinReward(w[off + 1] as u32))
    } else if w[off] == 2 {
        Some(EncounterReward::ExperienceReward(w[off + 1] as u32))
    } else if w[off] == 3 {
        Some(EncounterReward::CoinAndExperienceReward(w[off + 1] as u32, w[off + 2] as u32))
    } else {
        None
    }
}

/// The five monsters stored at `off`, if all are in range.
pub open spec fn roster_at(w: Seq<i64>, off: int) -> Option<Seq<Character>> {
    match (
        character_at(w, off),
        character_at(w, off + 6),
        character_at(w, off + 12),
        character_at(w, off + 18),
        character_at(w, off + 24),
    ) {
        (Some(a), Some(b), Some(c), Some(d), Some(e)) => Some(seq![a, b, c, d, e]),
        _ => None,
    }
}

/// The encounter stored at `off`, if it is valid.
pub open spec fn encounter_at(w: Seq<i64>, off: int) -> Option<EncounterView> {
    if w[off] == 0 {
        Some(EncounterView::Empty)
    } else if w[off] == 1 {
        match roster_at(w, off + 1) {
            Some(m) => if 0 <= w[off + 31] <= u16::MAX {
                Some(EncounterView::Combat(m, w[off + 31] as u16))
            } else {
                None
            },
            None => None,
        }
    } else if w[off] == 2 {
        match reward_at(w, off + 1) {
            Some(r) => Some(EncounterView::Npc(r)),
            None => None,
        }
    } else {
        None
    }
}

/// The quest that `w` holds, if it is valid.
pub open spec fn decode_words(w: Seq<i64>) -> Option<QuestView> {
    if w.len() != QUEST_WORDS {
        None
    } else {
        match (
            character_at(w, 0),
            character_at(w, 6),
            character_at(w, 12),
            encounter_at(w, 18),
            encounter_at(w, 50),
            encounter_at(w, 82),
        ) {
            (Some(a), Some(b), Some(c), Some(x), Some(y), Some(z)) => {
                let open = if w[114] == 0 {
                    Some(None)
                } else if w[114] == 1 {
                    match encounter_at(w, 115) {
                        Some(e) => Some(Some(e)),
                        None => None,
                    }
                } else {
                    None
                };
                match open {
                    Some(o) => Some(
                        QuestView { members: seq![a, b, c], encounters: seq![x, y, z], open_encounter: o },
                    ),
                    None => None,
                }
            },
            _ => None,
        }
    }
}

proof fn lemma_character_words_len(c: Character)
    ensures
        character_words(c).len() == CHARACTER_WORDS,
{
    reveal(character_words);
}

proof fn lemma_encounter_words_len(e: EncounterView)
    requires
        e.wf(),
    ensures
        encounter_words(e).len() == ENCOUNTER_WORDS,
{
    reveal(encounter_words);
    match e {
        EncounterView::Combat(m, _) => {
            lemma_character_words_len(m[0]);
            lemma_character_words_len(m[1]);
            lemma_character_words_len(m[2]);
            lemma_character_words_len(m[3]);
            lemma_character_words_len(m[4]);
        },
        _ => {},
    }
}

proof fn lemma_character_back(w: Seq<i64>, off: int, c: Character)
    requires
        0 <= off,
        off + 6 <= w.len(),
        w.subrange(off, off + 6) == character_words(c),
    ensures
        character_at(w, off) == Some(c),
{
    reveal(character_words);
    let s = w.subrange(off, off + 6);
    assert(w[off] == s[0] && w[off + 1] == s[1] && w[off + 2] == s[2]);
    assert(w[off + 3] == s[3] && w[off + 4] == s[4] && w[off + 5] == s[5]);
}

proof fn lemma_roster_back(w: Seq<i64>, off: int, m: Seq<Character>)
    requires
        0 <= off,
        off + 30 <= w.len(),
        m.len() == 5,
        w.subrange(off, off + 30) == roster_words(m),
    ensures
        roster_at(w, off) == Some(m),
{
    lemma_character_words_len(m[0]);
    lemma_character_words_len(m[1]);
    lemma_character_words_len(m[2]);
    lemma_character_words_len(m[3]);
    lemma_character_words_len(m[4]);
    let s = w.subrange(off, off + 30);
    assert forall|i: int| 0 <= i < 5 implies w.subrange(off + 6 * i, off + 6 * i + 6) == character_words(
        #[trigger] m[i],
    ) by {
        assert(w.subrange(off + 6 * i, off + 6 * i + 6) =~= s.subrange(6 * i, 6 * i + 6));
        assert(s.subrange(6 * i, 6 * i + 6) =~= character_words(m[i]));
    }
    lemma_character_back(w, off, m[0]);
    lemma_character_back(w, off + 6, m[1]);
    lemma_character_back(w, off + 12, m[2]);
    lemma_character_back(w, off + 18, m[3]);
    lemma_character_back(w, off + 24, m[4]);
    assert(seq![m[0], m[1], m[2], m[3], m[4]] =~= m);
}

proof fn lemma_encounter_back(w: Seq<i64>, off: int, e: EncounterView)
    requires
        0 <= off,
        off + 32 <= w.len(),
        e.wf(),
        w.subrange(off, off + 32) == encounter_words(e),
    ensures
        encounter_at(w, off) == Some(e),
{
    reveal(encounter_words);
    let s = w.subrange(off, off + 32);
    assert(w[off] == s[0]);
    match e {
        EncounterView::Empty => {},
        EncounterView::Combat(m, t) => {
            lemma_encounter_words_len(e);
            assert(w.subrange(off + 1, off + 31) =~= s.subrange(1, 31));
            assert(s.subrange(1, 31) =~= roster_words(m));
            lemma_roster_back(w, off + 1, m);
            assert(w[off + 31] == s[31]);
        },
        EncounterView::Npc(r) => {
            assert(w[off + 1] == s[1] && w[off + 2] == s[2] && w[off + 3] == s[3]);
        },
    }
}

proof fn lemma_view_round_trip(q: QuestView)
    requires
        q.wf(),
    ensures
        quest_words(q).len() == QUEST_WORDS,
        decode_words(quest_words(q)) == Some(q),
{
    let w = quest_words(q);
    assert(q.encounters[0].wf() && q.encounters[1].wf() && q.encounters[2].wf());
    lemma_character_words_len(q.members[0]);
    lemma_character_words_len(q.members[1]);
    lemma_character_words_len(q.members[2]);
    lemma_encounter_words_len(q.encounters[0]);
    lemma_encounter_words_len(q.encounters[1]);
    lemma_encounter_words_len(q.encounters[2]);
    match q.open_encounter {
        Some(e) => lemma_encounter_words_len(e),
        None => {},
    }
    assert(w.len() == QUEST_WORDS);
    assert(w.subrange(0, 6) =~= character_words(q.members[0]));
    assert(w.subrange(6, 12) =~= character_words(q.members[1]));
    assert(w.subrange(12, 18) =~= character_words(q.members[2]));
    assert(w.subrange(18, 50) =~= encounter_words(q.encounters[0]));
    assert(w.subrange(50, 82) =~= encounter_words(q.encounters[1]));
    assert(w.subrange(82, 114) =~= encounter_words(q.encounters[2]));
    lemma_character_back(w, 0, q.members[0]);
    lemma_character_back(w, 6, q.members[1]);
    lemma_character_back(w, 12, q.members[2]);
    lemma_encounter_back(w, 18, q.encounters[0]);
    lemma_encounter_back(w, 50, q.encounters[1]);
    lemma_encounter_back(w, 82, q.encounters[2]);
    assert(w[114] == open_words(q.open_encounter)[0]);
    match q.open_encounter {
        Some(e) => {
            assert(w.subrange(114, 147) =~= open_words(q.open_encounter));
            assert(w.subrange(115, 147) =~= encounter_words(e));
            lemma_encounter_back(w, 115, e);
        },
        None => {},
    }
    assert(seq![q.members[0], q.members[1], q.members[2]] =~= q.members);
    assert(seq![q.encounters[0], q.encounters[1], q.encounters[2]] =~= q.encounters);
}

/// Round trip: decoding the words that `encode_quest` writes for a
/// well-formed quest gives back a quest with the same structure: the same
/// members, the same encounters and the same open encounter.
pub proof fn lemma_round_trip(q: Quest)
    requires
        q.wf(),
    ensures
        quest_words(q@).len() == QUEST_WORDS,
        decode_words(quest_words(q@)) == Some(q@),
{
    lemma_quest_view_wf(q);
    lemma_view_round_trip(q@);
}

fn push_character(out: &mut Vec<i64>, c: Character)
    ensures
        final(out)@ == old(out)@ + character_words(c),
{
    out.push(c.unit.stats.health as i64);
    out.push(c.unit.stats.energy as i64);
    out.push(c.unit.max_stats.health as i64);
    out.push(c.unit.max_stats.energy as i64);
    out.push(c.experience as i64);
    out.push(c.coins as i64);
    proof {
        reveal(character_words);
        assert(out@ =~= old(out)@ + character_words(c));
    }
}

fn push_zeros(out: &mut Vec<i64>, n: usize)
    ensures
        final(out)@ == old(out)@ + zeros(n as nat),
{
    let mut i: usize = 0;
    while i < n
        invariant
            0 <= i <= n,
            out@ =~= old(out)@ + zeros(i as nat),
        decreases n - i,
    {
        out.push(0);
        i = i + 1;
        assert(out@ =~= old(out)@ + zeros(i as nat));
    }
}

fn push_reward(out: &mut Vec<i64>, r: EncounterReward)
    ensures
        final(out)@ == old(out)@ + reward_words(r),
{
    let (t, a, b): (i64, i64, i64) = match r {
        EncounterReward::NoReward => (0, 0, 0),
        EncounterReward::CoinReward(n) => (1, n as i64, 0),
        EncounterReward::ExperienceReward(x) => (2, x as i64, 0),
        EncounterReward::CoinAndExperienceReward(n, x) => (3, n as i64, x as i64),
    };
    out.push(t);
    out.push(a);
    out.push(b);
    assert(out@ =~= old(out)@ + reward_words(r));
}

fn push_encounter(out: &mut Vec<i64>, e: &Encounter)
    requires
        e.wf(),
    ensures
        final(out)@ == old(out)@ + encounter_words(e@),
{
    reveal(encounter_words);
    match e {
        Encounter::EmptyEncounter => {
            out.push(0);
            push_zeros(out, 31);
            assert(out@ =~= old(out)@ + encounter_words(e@));
        },
        Encounter::CombatEncounter(c) => {
            out.push(1);
            let ghost o1 = out@;
            push_character(out, c.monsters[0]);
            push_character(out, c.monsters[1]);
            push_character(out, c.monsters[2]);
            push_character(out, c.monsters[3]);
            push_character(out, c.monsters[4]);
            assert(out@ =~= o1 + roster_words(c.monsters@));
            out.push(c.turn as i64);
            assert(out@ =~= old(out)@ + encounter_words(e@));
        },
        Encounter::NpcEncounter(r) => {
            out.push(2);
            push_reward(out, *r);
            push_zeros(out, 28);
            assert(out@ =~= old(out)@ + encounter_words(e@));
        },
    }
}

/// Writes a well-formed quest as `QUEST_WORDS` words.
pub fn encode_quest(q: &Quest) -> (r: Vec<i64>)
    requires
        q.wf(),
    ensures
        r@ == quest_words(q@),
{
    let mut out: Vec<i64> = Vec::new();
    push_character(&mut out, q.members[0]);
    push_character(&mut out, q.members[1]);
    push_character(&mut out, q.members[2]);
    assert(q.encounters@[0].wf() && q.encounters@[1].wf() && q.encounters@[2].wf());
    push_encounter(&mut out, &q.encounters[0]);
    push_encounter(&mut out, &q.encounters[1]);
    push_encounter(&mut out, &q.encounters[2]);
    let ghost before_open = out@;
    match &q.open_encounter {
        None => {
            out.push(0);
            push_zeros(&mut out, ENCOUNTER_WORDS);
        },
        Some(e) => {
            out.push(1);
            push_encounter(&mut out, e);
        },
    }
    assert(out@ =~= before_open + open_words(q@.open_encounter));
    assert(out@ =~= quest_words(q@));
    out
}

fn character_from(w: &Vec<i64>, off: usize) -> (r: Option<Character>)
    requires
        off + 6 <= w@.len(),
        off + 6 <= QUEST_WORDS,
    ensures
        r == character_at(w@, off as int),
{
    let h = w[off];
    let e = w[off + 1];
    let mh = w[off + 2];
    let me = w[off + 3];
    let x = w[off + 4];
    let c = w[off + 5];
    let lo = i32::MIN as i64;
    let hi = i32::MAX as i64;
    let ok = lo <= h && h <= hi && lo <= e && e <= hi && lo <= mh && mh <= hi && lo <= me && me
        <= hi && 0 <= x && x <= u32::MAX as i64 && 0 <= c && c <= u32::MAX as i64;
    if !ok {
        return None;
    }
    Some(
        Character {
            unit: Unit {
                stats: Stats { health: h as i32, energy: e as i32 },
                max_stats: Stats { health: mh as i32, energy: me as i32 },
            },
            experience: x as u32,
            coins: c as u32,
        },
    )
}

fn reward_from(w: &Vec<i64>, off: usize) -> (r: Option<EncounterReward>)
    requires
        off + 3 <= w@.len(),
        off + 3 <= QUEST_WORDS,
    ensures
        r == reward_at(w@, off as int),
{
    let t = w[off];
    let a = w[off + 1];
    let b = w[off + 2];
    if a < 0 || a > u32::MAX as i64 || b < 0 || b > u32::MAX as i64 {
        None
    } else if t == 0 {
        Some(EncounterReward::NoReward)
    } else if t == 1 {
        Some(EncounterReward::CoinReward(a as u32))
    } else if t == 2 {
        Some(EncounterReward::ExperienceReward(a as u32))
    } else if t == 3 {
        Some(EncounterReward::CoinAndExperienceReward(a as u32, b as u32))
    } else {
        None
    }
}

fn roster_from(w: &Vec<i64>, off: usize) -> (r: Option<Vec<Character>>)
    requires
        off + 30 <= w@.len(),
        off + 30 <= QUEST_WORDS,
    ensures
        match r {
            Some(v) => roster_at(w@, off as int) == Some(v@),
            None => roster_at(w@, off as int) is None,
        },
{
    let mut v: Vec<Character> = Vec::new();
    let mut k: usize = 0;
    while k < 5
        invariant
            0 <= k <= 5,
            off + 30 <= w@.len(),
            off + 30 <= QUEST_WORDS,
            v@.len() == k,
            forall|i: int| 0 <= i < k ==> character_at(w@, off + 6 * i) == Some(#[trigger] v@[i]),
        decreases 5 - k,
    {
        match character_from(w, off + 6 * k) {
            Some(c) => v.push(c),
            None => {
                return None;
            },
        }
        k = k + 1;
    }
    assert(character_at(w@, off as int) == Some(v@[0]));
    assert(character_at(w@, off + 6) == Some(v@[1]));
    assert(character_at(w@, off + 12) == Some(v@[2]));
    assert(character_at(w@, off + 18) == Some(v@[3]));
    assert(character_at(w@, off + 24) == Some(v@[4]));
    assert(seq![v@[0], v@[1], v@[2], v@[3], v@[4]] =~= v@);
    Some(v)
}

fn encounter_from(w: &Vec<i64>, off: usize) -> (r: Option<Encounter>)
    requires
        off + 32 <= w@.len(),
        off + 32 <= QUEST_WORDS,
    ensures
        match r {
            Some(e) => e.wf() && encounter_at(w@, off as int) == Some(e@),
            None => encounter_at(w@, off as int) is None,
        },
{
    let t = w[off];
    if t == 0 {
        Some(Encounter::EmptyEncounter)
    } else if t == 1 {
        match roster_from(w, off + 1) {
            Some(monsters) => {
                let turn = w[off + 31];
                if 0 <= turn && turn <= u16::MAX as i64 {
                    Some(Encounter::CombatEncounter(Combat { monsters, turn: turn as u16 }))
                } else {
                    None
                }
            },
            None => None,
        }
    } else if t == 2 {
        match reward_from(w, off + 1) {
            Some(r) => Some(Encounter::NpcEncounter(r)),
            None => None,
        }
    } else {
        None
    }
}

/// Reads a quest back from its words; `None` when the words are not the
/// encoding of a quest.
pub fn decode_quest(w: &Vec<i64>) -> (r: Option<Quest>)
    ensures
        match r {
            Some(q) => q.wf() && decode_words(w@) == Some(q@),
            None => decode_words(w@) is None,
        },
{
    if w.len() != QUEST_WORDS {
        return None;
    }
    let a = match character_from(w, 0) {
        Some(c) => c,
        None => {
            return None;
        },
    };
    let b = match character_from(w, 6) {
        Some(c) => c,
        None => {
            return None;
        },
    };
    let c = match character_from(w, 12) {
        Some(c) => c,
        None => {
            return None;
        },
    };
    let x = match encounter_from(w, 18) {
        Some(e) => e,
        None => {
            return None;
        },
    };
    let y = match encounter_from(w, 50) {
        Some(e) => e,
        None => {
            return None;
        },
    };
    let z = match encounter_from(w, 82) {
        Some(e) => e,
        None => {
            return None;
        },
    };
    let open = if w[114] == 0 {
        None
    } else if w[114] == 1 {
        match encounter_from(w, 115) {
            Some(e) => Some(e),
            None => {
                return None;
            },
        }
    } else {
        return None;
    };
    let ghost ev = seq![x@, y@, z@];
    let q = Quest { members: vec![a, b, c], encounters: vec![x, y, z], open_encounter: open };
    proof {
        assert(q.members@ =~= seq![a, b, c]);
        assert(q@.encounters =~= ev);
        assert forall|i: int| 0 <= i < q.encounters@.len() implies (#[trigger] q.encounters@[i]).wf() by {
            assert(q.encounters@[0] == x && q.encounters@[1] == y && q.encounters@[2] == z);
        }
    }
    Some(q)
}

} // verus!
