use vstd::prelude::*;

use crate::data::{new_character, Character, User};
use crate::quest_data::Quest;

verus! {

/// Number of slots in each of the registry's slot spaces.
pub const REGISTRY_CAPACITY: usize = 100;

/// Why the registry refused a request.
#[derive(Clone, Copy, Debug, PartialEq, Eq, Structural)]
pub enum RegistryError {
    /// Every slot of the requested slot space is taken.
    Full,
}

/// The registry: fixed-capacity slot spaces for users, characters and quests.
/// Slots are filled first-fit and never freed.
#[derive(Clone, Debug)]
pub struct ServerState {
    pub users: Vec<Option<User>>,
    pub characters: Vec<Option<Character>>,
    pub quests: Vec<Option<Quest>>,
}

/// `i` is the lowest empty slot of `s`.
pub open spec fn is_first_free<T>(s: Seq<Option<T>>, i: int) -> bool {
    &&& 0 <= i < s.len()
    &&& s[i] is None
    &&& forall|j: int| 0 <= j < i ==> s[j] is Some
}

/// Every slot of `s` is taken.
pub open spec fn all_taken<T>(s: Seq<Option<T>>) -> bool {
    forall|j: int| 0 <= j < s.len() ==> s[j] is Some
}

/// Every slot of `s` is empty.
pub open spec fn all_free<T>(s: Seq<Option<T>>) -> bool {
    forall|j: int| 0 <= j < s.len() ==> s[j] is None
}

/// First-fit allocation of `item` took the slot space from `before` to
/// `after` with result `r`: the lowest empty slot receives the item, or,
/// when none is empty, nothing changes and `Full` is reported.
pub open spec fn allocation<T>(
    before: Seq<Option<T>>,
    item: T,
    after: Seq<Option<T>>,
    r: Result<usize, RegistryError>,
) -> bool {
    match r {
        Ok(i) => is_first_free(before, i as int) && after == before.update(i as int, Some(item)),
        Err(_) => all_taken(before) && after == before,
    }
}

/// Number of taken slots of `s`.
pub open spec fn live_count<T>(s: Seq<Option<T>>) -> nat
    decreases s.len(),
{
    if s.len() == 0 {
        0
    } else {
        live_count(s.drop_last()) + if s.last() is Some {
            1nat
        } else {
            0nat
        }
    }
}

/// The taken slots of `s`, in index order.
pub open spec fn live_items<T>(s: Seq<Option<T>>) -> Seq<T>
    decreases s.len(),
{
    if s.len() == 0 {
        Seq::empty()
    } else {
        let rest = live_items(s.drop_last());
        match s.last() {
            Some(x) => rest.push(x),
            None => rest,
        }
    }
}

/// The first `n` items of `s` (all of them when there are fewer).
pub open spec fn take<T>(s: Seq<T>, n: nat) -> Seq<T> {
    if s.len() <= n {
        s
    } else {
        s.take(n as int)
    }
}

/// A user as registration makes it: the given id and name, no character.
pub open spec fn fresh_user(u: User, id: int, name: Seq<char>) -> bool {
    u.id == id && u.username@ == name && u.characters@.len() == 0
}

/// The live items of a prefix of `s` are a prefix of the live items of `s`.
pub proof fn lemma_live_items_prefix<T>(s: Seq<Option<T>>, i: int)
    requires
        0 <= i <= s.len(),
    ensures
        live_items(s.take(i)).len() <= live_items(s).len(),
        live_items(s).take(live_items(s.take(i)).len() as int) == live_items(s.take(i)),
    decreases s.len(),
{
    if i == s.len() {
        assert(s.take(i) =~= s);
        assert(live_items(s).take(live_items(s).len() as int) =~= live_items(s));
    } else {
        assert(s.drop_last().take(i) =~= s.take(i));
        lemma_live_items_prefix(s.drop_last(), i);
        let a = live_items(s.take(i));
        let b = live_items(s.drop_last());
        assert(live_items(s).take(a.len() as int) =~= b.take(a.len() as int));
    }
}

/// No more slots are taken than there are slots, and all are taken exactly
/// when the count reaches the length.
proof fn lemma_live_count_bound<T>(s: Seq<Option<T>>)
    ensures
        live_count(s) <= s.len(),
        all_taken(s) <==> live_count(s) == s.len(),
        all_free(s) ==> live_count(s) == 0,
    decreases s.len(),
{
    if s.len() > 0 {
        lemma_live_count_bound(s.drop_last());
        if all_taken(s) {
            assert(all_taken(s.drop_last()));
        }
        if live_count(s) == s.len() {
            assert forall|j: int| 0 <= j < s.len() implies s[j] is Some by {
                if j < s.len() - 1 {
                    assert(s.drop_last()[j] == s[j]);
                }
            }
        }
        if all_free(s) {
            assert(all_free(s.drop_last()));
        }
    }
}

/// Filling an empty slot adds one to the count.
proof fn lemma_live_count_fill<T>(s: Seq<Option<T>>, i: int, x: T)
    requires
        0 <= i < s.len(),
        s[i] is None,
    ensures
        live_count(s.update(i, Some(x))) == live_count(s) + 1,
    decreases s.len(),
{
    let t = s.update(i, Some(x));
    if i == s.len() - 1 {
        assert(t.drop_last() =~= s.drop_last());
    } else {
        assert(t.drop_last() =~= s.drop_last().update(i, Some(x)));
        lemma_live_count_fill(s.drop_last(), i, x);
    }
}

/// After `k` steps of a run of allocations that started from an empty slot
/// space, `min(k, len)` slots are taken.
proof fn lemma_run_count<T>(
    states: Seq<Seq<Option<T>>>,
    items: Seq<T>,
    results: Seq<Result<usize, RegistryError>>,
    k: int,
)
    requires
        allocation_run(states, items, results),
        0 <= k <= results.len(),
    ensures
        states[k].len() == states[0].len(),
        live_count(states[k]) == if k < states[0].len() {
            k
        } else {
            states[0].len() as int
        },
    decreases k,
{
    if k == 0 {
        lemma_live_count_bound(states[0]);
    } else {
        lemma_run_count(states, items, results, k - 1);
        lemma_live_count_bound(states[k - 1]);
        match results[k - 1] {
            Ok(i) => lemma_live_count_fill(states[k - 1], i as int, items[k - 1]),
            Err(_) => {},
        }
    }
}

/// A slot handed out at step `k1` is still taken at every later step.
proof fn lemma_run_keeps<T>(
    states: Seq<Seq<Option<T>>>,
    items: Seq<T>,
    results: Seq<Result<usize, RegistryError>>,
    k1: int,
    k2: int,
)
    requires
        allocation_run(states, items, results),
        0 <= k1 < k2 <= results.len(),
        results[k1] is Ok,
    ensures
        states[k2].len() == states[k1].len(),
        states[k2][results[k1]->Ok_0 as int] is Some,
    decreases k2,
{
    let i = results[k1]->Ok_0 as int;
    assert(allocation(states[k1], items[k1], states[k1 + 1], results[k1]));
    if k2 > k1 + 1 {
        lemma_run_keeps(states, items, results, k1, k2 - 1);
        assert(allocation(states[k2 - 1], items[k2 - 1], states[k2], results[k2 - 1]));
        match results[k2 - 1] {
            Ok(j) => {
                assert(j as int != i);
                assert(states[k2][i] == states[k2 - 1][i]);
            },
            Err(_) => {},
        }
    } else {
        assert(states[k2][i] == Some(items[k1]));
    }
}

/// `states` is a run of first-fit allocations from an empty slot space:
/// step `k` allocates `items[k]`, takes `states[k]` to `states[k + 1]` and
/// reports `results[k]`.
pub open spec fn allocation_run<T>(
    states: Seq<Seq<Option<T>>>,
    items: Seq<T>,
    results: Seq<Result<usize, RegistryError>>,
) -> bool {
    &&& states.len() == results.len() + 1
    &&& items.len() == results.len()
    &&& all_free(states[0])
    &&& forall|k: int|
        0 <= k < results.len() ==> allocation(states[k], items[k], states[k + 1], #[trigger] results[k])
}

/// Allocation exclusivity. The registry's exclusive access puts concurrent
/// allocations in some order; whatever that order, starting from an empty
/// slot space of `len` slots, the first `len` allocations succeed, no two
/// successful allocations receive the same slot, and every allocation after
/// the first `len` reports `Full`.
pub proof fn lemma_allocation_exclusive<T>(
    states: Seq<Seq<Option<T>>>,
    items: Seq<T>,
    results: Seq<Result<usize, RegistryError>>,
)
    requires
        allocation_run(states, items, results),
    ensures
        forall|k: int| 0 <= k < results.len() ==> (#[trigger] results[k] is Ok <==> k < states[0].len()),
        forall|k1: int, k2: int|
            0 <= k1 < k2 < results.len() && #[trigger] results[k1] is Ok && #[trigger] results[k2] is Ok
                ==> results[k1]->Ok_0 != results[k2]->Ok_0,
{
    assert forall|k: int| 0 <= k < results.len() implies (#[trigger] results[k] is Ok <==> k
        < states[0].len()) by {
        lemma_run_count(states, items, results, k);
        lemma_live_count_bound(states[k]);
        assert(allocation(states[k], items[k], states[k + 1], results[k]));
    }
    assert forall|k1: int, k2: int|
        0 <= k1 < k2 < results.len() && #[trigger] results[k1] is Ok && #[trigger] results[k2] is Ok
            implies results[k1]->Ok_0 != results[k2]->Ok_0 by {
        lemma_run_keeps(states, items, results, k1, k2);
        assert(allocation(states[k2], items[k2], states[k2 + 1], results[k2]));
    }
}

/// Fills the lowest empty slot of `slots` with `item`.
fn allocate_slot<T>(slots: &mut Vec<Option<T>>, item: T) -> (r: Result<usize, RegistryError>)
    ensures
        allocation(old(slots)@, item, final(slots)@, r),
{
    let mut i: usize = 0;
    while i < slots.len()
        invariant
            slots@ == old(slots)@,
            0 <= i <= slots@.len(),
            forall|j: int| 0 <= j < i ==> slots@[j] is Some,
        decreases slots@.len() - i,
    {
        if slots[i].is_none() {
            slots[i] = Some(item);
            return Ok(i);
        }
        i = i + 1;
    }
    Err(RegistryError::Full)
}

/// The index of the lowest empty slot of `slots`, if any.
fn first_free<T>(slots: &Vec<Option<T>>) -> (r: Option<usize>)
    ensures
        match r {
            Some(i) => is_first_free(slots@, i as int),
            None => all_taken(slots@),
        },
{
    let mut i: usize = 0;
    while i < slots.len()
        invariant
            0 <= i <= slots@.len(),
            forall|j: int| 0 <= j < i ==> slots@[j] is Some,
        decreases slots@.len() - i,
    {
        if slots[i].is_none() {
            return Some(i);
        }
        i = i + 1;
    }
    None
}

/// A vector of `REGISTRY_CAPACITY` empty slots.
fn empty_slots<T>() -> (r: Vec<Option<T>>)
    ensures
        r@.len() == REGISTRY_CAPACITY,
        all_free(r@),
{
    let mut v: Vec<Option<T>> = Vec::new();
    while v.len() < REGISTRY_CAPACITY
        invariant
            v@.len() <= REGISTRY_CAPACITY,
            all_free(v@),
        decreases REGISTRY_CAPACITY - v@.len(),
    {
        v.push(None);
    }
    v
}

impl ServerState {
    /// Each slot space has exactly `REGISTRY_CAPACITY` slots.
    pub open spec fn wf(&self) -> bool {
        &&& self.users@.len() == REGISTRY_CAPACITY
        &&& self.characters@.len() == REGISTRY_CAPACITY
        &&& self.quests@.len() == REGISTRY_CAPACITY
    }

    /// An empty registry.
    pub fn new() -> (r: ServerState)
        ensures
            r.wf(),
            all_free(r.users@),
            all_free(r.characters@),
            all_free(r.quests@),
    {
        ServerState { users: empty_slots(), characters: empty_slots(), quests: empty_slots() }
    }

    /// Stores `user` in the lowest empty user slot and returns its index;
    /// `Full` when every user slot is taken.
    pub fn allocate_user(&mut self, user: User) -> (r: Result<usize, RegistryError>)
        ensures
            allocation(old(self).users@, user, final(self).users@, r),
            final(self).characters == old(self).characters,
            final(self).quests == old(self).quests,
    {
        allocate_slot(&mut self.users, user)
    }

    /// Stores `character` in the lowest empty character slot and returns its
    /// index; `Full` when every character slot is taken.
    pub fn allocate_character(&mut self, character: Character) -> (r: Result<usize, RegistryError>)
        ensures
            allocation(old(self).characters@, character, final(self).characters@, r),
            final(self).users == old(self).users,
            final(self).quests == old(self).quests,
    {
        allocate_slot(&mut self.characters, character)
    }

    /// Registers a new user named `username` in the lowest empty user slot.
    /// The user's id is its slot index and it holds no character. `Full`,
    /// with the registry unchanged, when every user slot is taken.
    pub fn register_user(&mut self, username: String) -> (r: Result<User, RegistryError>)
        requires
            old(self).wf(),
        ensures
            final(self).wf(),
            final(self).characters == old(self).characters,
            final(self).quests == old(self).quests,
            match r {
                Ok(u) => {
                    &&& is_first_free(old(self).users@, u.id as int)
                    &&& fresh_user(u, u.id as int, username@)
                    &&& final(self).users@[u.id as int] is Some
                    &&& fresh_user(final(self).users@[u.id as int]->Some_0, u.id as int, username@)
                    &&& forall|j: int|
                        0 <= j < REGISTRY_CAPACITY && j != u.id ==> final(self).users@[j] == old(
                            self,
                        ).users@[j]
                },
                Err(_) => all_taken(old(self).users@) && final(self).users == old(self).users,
            },
    {
        match first_free(&self.users) {
            Some(i) => {
                let id = i as i32;
                let stored = User::new(id, username.clone());
                self.users[i] = Some(stored);
                Ok(User::new(id, username))
            },
            None => Err(RegistryError::Full),
        }
    }

    /// Creates a fresh level-one character in the lowest empty character
    /// slot and returns it; `Full`, with the registry unchanged, when every
    /// character slot is taken.
    pub fn create_character(&mut self) -> (r: Result<Character, RegistryError>)
        ensures
            final(self).users == old(self).users,
            final(self).quests == old(self).quests,
            match r {
                Ok(c) => c == new_character() && exists|i: usize|
                    allocation(old(self).characters@, c, final(self).characters@, Ok(i)),
                Err(e) => allocation(old(self).characters@, new_character(), final(self).characters@, Err(e)),
            },
    {
        let c = Character::new();
        match self.allocate_character(c) {
            Ok(_) => Ok(c),
            Err(e) => Err(e),
        }
    }

    /// The first `limit` live characters in slot order, empty slots skipped.
    pub fn snapshot_characters(&self, limit: usize) -> (r: Vec<Character>)
        ensures
            r@ == take(live_items(self.characters@), limit as nat),
    {
        let mut r: Vec<Character> = Vec::new();
        let mut i: usize = 0;
        while i < self.characters.len() && r.len() < limit
            invariant
                0 <= i <= self.characters@.len(),
                r@ == live_items(self.characters@.take(i as int)),
                r@.len() <= limit,
            decreases self.characters@.len() - i,
        {
            proof {
                let s = self.characters@.take(i as int + 1);
                assert(s.drop_last() =~= self.characters@.take(i as int));
            }
            match &self.characters[i] {
                Some(c) => r.push(*c),
                None => {},
            }
            i = i + 1;
        }
        proof {
            lemma_live_items_prefix(self.characters@, i as int);
            if i == self.characters@.len() {
                assert(self.characters@.take(i as int) =~= self.characters@);
            }
        }
        r
    }
}

} // verus!
