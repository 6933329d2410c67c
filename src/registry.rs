use vstd::prelude::*;

use crate::difficulty::{Difficulty, DifficultyView};
use linked_hash_map::LinkedHashMap;

verus! {

/// linked_hash_map's LinkedHashMap, seen as opaque; what it holds is `entries_of`.
#[verifier::external_type_specification]
#[verifier::external_body]
#[verifier::reject_recursive_types(K)]
#[verifier::reject_recursive_types(V)]
#[verifier::reject_recursive_types(S)]
pub struct ExLinkedHashMap<K, V, S>(LinkedHashMap<K, V, S>);

/// The entries of a linked hash map, as (key, value) pairs in the order in which
/// the map walks them.
pub uninterp spec fn entries_of(m: LinkedHashMap<String, Difficulty>) -> Seq<(Seq<char>, DifficultyView)>;

/// Whether some entry of `s` is keyed `k`.
pub open spec fn has_key(s: Seq<(Seq<char>, DifficultyView)>, k: Seq<char>) -> bool {
    exists|i: int| 0 <= i < s.len() && (#[trigger] s[i]).0 == k
}

/// No two entries of `s` share a key.
pub open spec fn keys_unique(s: Seq<(Seq<char>, DifficultyView)>) -> bool {
    forall|i: int, j: int| 0 <= i < s.len() && 0 <= j < s.len() && i != j ==> (#[trigger] s[i]).0 != (#[trigger] s[j]).0
}

/// Position of the entry keyed `k` (meaningful when `has_key(s, k)`).
pub open spec fn key_index(s: Seq<(Seq<char>, DifficultyView)>, k: Seq<char>) -> int {
    choose|i: int| 0 <= i < s.len() && (#[trigger] s[i]).0 == k
}

/// The value stored under `k`, if any.
pub open spec fn lookup(s: Seq<(Seq<char>, DifficultyView)>, k: Seq<char>) -> Option<DifficultyView> {
    if has_key(s, k) {
        Some(s[key_index(s, k)].1)
    } else {
        None
    }
}

/// The entries after storing `v` under `k`: a present key leaves its place and
/// the new entry goes to the back.
pub open spec fn inserted(s: Seq<(Seq<char>, DifficultyView)>, k: Seq<char>, v: DifficultyView) -> Seq<
    (Seq<char>, DifficultyView),
> {
    if has_key(s, k) {
        s.remove(key_index(s, k)).push((k, v))
    } else {
        s.push((k, v))
    }
}

/// In a list with unique keys, looking up the key of an entry finds that entry's value.
pub proof fn lemma_lookup_entry(s: Seq<(Seq<char>, DifficultyView)>, i: int)
    requires
        keys_unique(s),
        0 <= i < s.len(),
    ensures
        lookup(s, s[i].0) == Some(s[i].1),
{
    assert(has_key(s, s[i].0));
}

/// The (key, value) views of a list of owned entries.
pub open spec fn entry_views(v: Seq<(String, Difficulty)>) -> Seq<(Seq<char>, DifficultyView)> {
    v.map_values(|e: (String, Difficulty)| (e.0@, e.1@))
}

/// Iterating a registry twice, with no change in between, gives the same
/// (name, difficulty) pairs in the same order.
pub proof fn lemma_entries_repeatable(
    reg: DifficultyRegistry,
    first: Seq<(String, Difficulty)>,
    second: Seq<(String, Difficulty)>,
)
    requires
        entry_views(first) == reg@,
        entry_views(second) == reg@,
    ensures
        entry_views(first) == entry_views(second),
        first.len() == second.len(),
        forall|i: int|
            0 <= i < first.len() ==> (#[trigger] first[i]).0@ == second[i].0@ && first[i].1@
                == second[i].1@,
{
    assert(entry_views(first).len() == first.len());
    assert(entry_views(second).len() == second.len());
    assert forall|i: int| 0 <= i < first.len() implies (#[trigger] first[i]).0@ == second[i].0@
        && first[i].1@ == second[i].1@ by {
        assert(entry_views(first)[i] == (first[i].0@, first[i].1@));
        assert(entry_views(second)[i] == (second[i].0@, second[i].1@));
    }
}

/// Relies on LinkedHashMap::default: a new map has no entries.
#[verifier::external_body]
fn map_new() -> (m: LinkedHashMap<String, Difficulty>)
    ensures
        entries_of(m) == Seq::<(Seq<char>, DifficultyView)>::empty(),
{
    LinkedHashMap::default()
}

/// Relies on LinkedHashMap::insert: a new key is appended at the back; a key that
/// is present has its value replaced, its entry moved to the back, and the old
/// value returned. It does not unwind: a failed allocation aborts.
#[verifier::external_body]
fn map_insert(m: &mut LinkedHashMap<String, Difficulty>, k: String, v: Difficulty) -> (r: Option<
    Difficulty,
>)
    ensures
        !has_key(entries_of(*old(m)), k@) ==> r is None && entries_of(*final(m)) == entries_of(
            *old(m),
        ).push((k@, v@)),
        forall|i: int|
            0 <= i < entries_of(*old(m)).len() && (#[trigger] entries_of(*old(m))[i]).0 == k@
                ==> r is Some && r->0@ == entries_of(*old(m))[i].1 && entries_of(*final(m))
                == entries_of(*old(m)).remove(i).push((k@, v@)),
    no_unwind
{
    m.insert(k, v)
}

/// Relies on LinkedHashMap::get: the value stored under `k`, if any.
#[verifier::external_body]
fn map_get<'a>(m: &'a LinkedHashMap<String, Difficulty>, k: &str) -> (r: Option<&'a Difficulty>)
    ensures
        r is None <==> !has_key(entries_of(*m), k@),
        forall|i: int|
            0 <= i < entries_of(*m).len() && (#[trigger] entries_of(*m)[i]).0 == k@ ==> r is Some
                && r->0@ == entries_of(*m)[i].1,
{
    m.get(k)
}

/// Relies on LinkedHashMap::iter: every entry, in the map's order.
#[verifier::external_body]
fn map_entries(m: &LinkedHashMap<String, Difficulty>) -> (r: Vec<(String, Difficulty)>)
    ensures
        entry_views(r@) == entries_of(*m),
{
    m.iter().map(|(k, v)| (k.clone(), v.clone())).collect()
}

/// Relies on LinkedHashMap::len: the number of entries.
#[verifier::external_body]
fn map_len(m: &LinkedHashMap<String, Difficulty>) -> (r: usize)
    ensures
        r == entries_of(*m).len(),
{
    m.len()
}

/// Difficulties keyed by name, kept in the order in which they were inserted.
pub struct DifficultyRegistry {
    map: LinkedHashMap<String, Difficulty>,
}

impl View for DifficultyRegistry {
    type V = Seq<(Seq<char>, DifficultyView)>;

    closed spec fn view(&self) -> Seq<(Seq<char>, DifficultyView)> {
        entries_of(self.map)
    }
}

impl DifficultyRegistry {
    /// Keys are unique.
    #[verifier::type_invariant]
    spec fn inv(&self) -> bool {
        keys_unique(self@)
    }

    /// An empty registry.
    pub fn new() -> (r: Self)
        ensures
            r@ == Seq::<(Seq<char>, DifficultyView)>::empty(),
    {
        DifficultyRegistry { map: map_new() }
    }

    /// Stores `difficulty` under `name`. A name already present gives up its
    /// place and its old value, which is returned; the new entry goes last.
    pub fn insert(&mut self, name: String, difficulty: Difficulty) -> (r: Option<Difficulty>)
        ensures
            keys_unique(final(self)@),
            final(self)@ == inserted(old(self)@, name@, difficulty@),
            match r {
                None => lookup(old(self)@, name@) is None,
                Some(d) => lookup(old(self)@, name@) == Some(d@),
            },
    {
        proof {
            use_type_invariant(&*self);
        }
        let ghost k = name@;
        let ghost v = difficulty@;
        let ghost s = self@;
        let r = map_insert(&mut self.map, name, difficulty);
        proof {
            if has_key(s, k) {
                let i = key_index(s, k);
                assert(s[i].0 == k);
                let t = s.remove(i);
                assert forall|a: int, b: int|
                    0 <= a < self@.len() && 0 <= b < self@.len() && a != b implies (
                    #[trigger] self@[a]).0 != (#[trigger] self@[b]).0 by {
                    if a < t.len() && b < t.len() {
                        let a0 = if a < i { a } else { a + 1 };
                        let b0 = if b < i { b } else { b + 1 };
                        assert(t[a] == s[a0] && t[b] == s[b0]);
                    } else if a < t.len() {
                        let a0 = if a < i { a } else { a + 1 };
                        assert(t[a] == s[a0]);
                    } else if b < t.len() {
                        let b0 = if b < i { b } else { b + 1 };
                        assert(t[b] == s[b0]);
                    }
                }
            } else {
                assert forall|a: int, b: int|
                    0 <= a < self@.len() && 0 <= b < self@.len() && a != b implies (
                    #[trigger] self@[a]).0 != (#[trigger] self@[b]).0 by {
                    if a < s.len() && b < s.len() {
                        assert(self@[a] == s[a] && self@[b] == s[b]);
                    } else if a < s.len() {
                        assert(self@[a] == s[a]);
                    } else if b < s.len() {
                        assert(self@[b] == s[b]);
                    }
                }
            }
        }
        r
    }

    /// The difficulty stored under `name`, or `None` when no entry has that key.
    pub fn get(&self, name: &str) -> (r: Option<&Difficulty>)
        ensures
            match r {
                None => lookup(self@, name@) is None,
                Some(d) => lookup(self@, name@) == Some(d@),
            },
    {
        let r = map_get(&self.map, name);
        proof {
            use_type_invariant(self);
            if has_key(self@, name@) {
                let i = key_index(self@, name@);
                assert(self@[i].0 == name@);
            }
        }
        r
    }

    /// Every (name, difficulty) entry, in insertion order.
    pub fn entries(&self) -> (r: Vec<(String, Difficulty)>)
        ensures
            entry_views(r@) == self@,
    {
        map_entries(&self.map)
    }

    /// The number of entries.
    pub fn len(&self) -> (r: usize)
        ensures
            r == self@.len(),
    {
        map_len(&self.map)
    }
}

} // verus!
