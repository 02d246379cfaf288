//! The outside containers the counter is built on: a concurrent map from
//! phrase to count (dashmap) and a per-parse set of seen phrases (hashbrown),
//! both hashed with ahash's deterministic `AHasher`.

use vstd::prelude::*;

verus! {

/// A phrase identifier: an opaque fixed-width hashed key.
pub type HT = u64;

#[verifier::external_type_specification]
#[verifier::external_body]
pub struct ExAHasher(ahash::AHasher);

#[verifier::external_type_specification]
#[verifier::external_body]
#[verifier::reject_recursive_types(H)]
pub struct ExBuildHasherDefault<H>(std::hash::BuildHasherDefault<H>);

#[verifier::external_type_specification]
#[verifier::external_body]
#[verifier::reject_recursive_types(K)]
#[verifier::reject_recursive_types(V)]
#[verifier::reject_recursive_types(S)]
pub struct ExDashMap<K, V, S>(dashmap::DashMap<K, V, S>);

/// The hasher builder every container of this crate is keyed with.
pub type PhraseHasher = std::hash::BuildHasherDefault<ahash::AHasher>;

/// Map from phrase identifier to the number of parses it occurred in.
pub type PhraseTable = dashmap::DashMap<HT, u64, PhraseHasher>;

/// What a phrase table holds.
pub uninterp spec fn table_contents(t: dashmap::DashMap<u64, u64, std::hash::BuildHasherDefault<ahash::AHasher>>) -> Map<u64, u64>;

/// Relies on `DashMap::with_capacity_and_hasher`: a new map holds nothing.
#[verifier::external_body]
pub(crate) fn table_new(capacity: usize) -> (r: PhraseTable)
    ensures
        table_contents(r).dom() == Set::<u64>::empty(),
{
    PhraseTable::with_capacity_and_hasher(capacity, PhraseHasher::default())
}

/// Relies on `DashMap::get`: the value stored under `key`, if any.
#[verifier::external_body]
pub(crate) fn table_get(t: &PhraseTable, key: HT) -> (r: Option<u64>)
    ensures
        match r {
            Some(v) => table_contents(*t).contains_key(key) && table_contents(*t)[key] == v,
            None => !table_contents(*t).contains_key(key),
        },
{
    t.get(&key).map(|e| *e.value())
}

/// Relies on `DashMap::insert`: `key` maps to `value` afterwards, other keys
/// are untouched.
#[verifier::external_body]
pub(crate) fn table_insert(t: &mut PhraseTable, key: HT, value: u64)
    ensures
        table_contents(*final(t)) == table_contents(*old(t)).insert(key, value),
{
    t.insert(key, value);
}

/// Relies on `DashMap::len`: the number of keys stored.
#[verifier::external_body]
pub(crate) fn table_len(t: &PhraseTable) -> (r: usize)
    ensures
        r == table_contents(*t).dom().len(),
{
    t.len()
}

/// Relies on `DashMap::iter`: every stored pair is visited exactly once.
#[verifier::external_body]
pub(crate) fn table_entries(t: &PhraseTable) -> (r: Vec<(HT, u64)>)
    ensures
        forall|j: int|
            0 <= j < r@.len() ==> table_contents(*t).contains_key(#[trigger] r@[j].0)
                && table_contents(*t)[r@[j].0] == r@[j].1,
        forall|key: HT|
            table_contents(*t).contains_key(key) ==> exists|j: int|
                0 <= j < r@.len() && #[trigger] r@[j].0 == key,
        forall|a: int, b: int|
            0 <= a < r@.len() && 0 <= b < r@.len() && a != b ==> #[trigger] r@[a].0
                != #[trigger] r@[b].0,
{
    t.iter().map(|e| (*e.key(), *e.value())).collect()
}

/// The set of phrase identifiers already met while adding one parse.
#[verifier::external_body]
pub struct SeenSet {
    set: hashbrown::HashSet<HT, PhraseHasher>,
}

/// What a seen-set holds.
pub uninterp spec fn seen_contents(s: SeenSet) -> Set<u64>;

/// Relies on `hashbrown::HashSet::with_hasher`: a new set is empty.
#[verifier::external_body]
pub(crate) fn seen_new() -> (r: SeenSet)
    ensures
        seen_contents(r) == Set::<u64>::empty(),
{
    SeenSet { set: hashbrown::HashSet::with_hasher(PhraseHasher::default()) }
}

/// Relies on `hashbrown::HashSet::insert`: returns whether `x` was absent,
/// and `x` is present afterwards.
#[verifier::external_body]
pub(crate) fn seen_insert(s: &mut SeenSet, x: HT) -> (r: bool)
    ensures
        r == !seen_contents(*old(s)).contains(x),
        seen_contents(*final(s)) == seen_contents(*old(s)).insert(x),
{
    s.set.insert(x)
}

} // verus!
