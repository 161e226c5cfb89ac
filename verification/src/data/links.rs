//! The persistent hash collections that back the store, with what the store
//! relies on of each of their methods.

use vstd::prelude::*;

verus! {

/// `im::HashSet`, the persistent hash set. Nothing of its inside is known
/// here; what it holds is named by [`id_set`] and [`pair_set`].
#[verifier::external_type_specification]
#[verifier::external_body]
#[verifier::reject_recursive_types(A)]
#[verifier::reject_recursive_types(S)]
pub struct ExHashSet<A, S>(im::HashSet<A, S>);

/// `im::HashMap`, the persistent hash map. Nothing of its inside is known
/// here; what it holds is named by [`id_map`].
#[verifier::external_type_specification]
#[verifier::external_body]
#[verifier::reject_recursive_types(K)]
#[verifier::reject_recursive_types(V)]
#[verifier::reject_recursive_types(S)]
pub struct ExHashMap<K, V, S>(im::HashMap<K, V, S>);

/// The arena indices that a set of neighbours holds.
pub uninterp spec fn id_set(s: im::HashSet<u32>) -> Set<u32>;

/// The pairs of arena indices that a set of edges holds.
pub uninterp spec fn pair_set(s: im::HashSet<(u32, u32)>) -> Set<(u32, u32)>;

/// The mapping from external id to arena index that an index holds.
pub uninterp spec fn id_map(m: im::HashMap<u64, u32>) -> Map<u64, u32>;

/// `im::HashSet::new`: the empty set.
#[verifier::external_body]
pub(crate) fn id_set_new() -> (s: im::HashSet<u32>)
    ensures
        id_set(s) == Set::<u32>::empty(),
{
    im::HashSet::new()
}

/// `im::HashSet::insert`: afterwards the set holds `a` besides what it held.
#[verifier::external_body]
pub(crate) fn id_set_insert(s: &mut im::HashSet<u32>, a: u32)
    ensures
        id_set(*final(s)) == id_set(*old(s)).insert(a),
{
    s.insert(a);
}

/// `im::HashSet::contains`: whether the set holds `a`.
#[verifier::external_body]
pub(crate) fn id_set_contains(s: &im::HashSet<u32>, a: u32) -> (r: bool)
    ensures
        r == id_set(*s).contains(a),
{
    s.contains(&a)
}

/// `Clone::clone` of `im::HashSet`: a set that holds the same values.
#[verifier::external_body]
pub(crate) fn id_set_clone(s: &im::HashSet<u32>) -> (r: im::HashSet<u32>)
    ensures
        id_set(r) == id_set(*s),
{
    s.clone()
}

/// `im::HashSet::new`: the empty set.
#[verifier::external_body]
pub(crate) fn pair_set_new() -> (s: im::HashSet<(u32, u32)>)
    ensures
        pair_set(s) == Set::<(u32, u32)>::empty(),
{
    im::HashSet::new()
}

/// `im::HashSet::insert`: afterwards the set holds `a` besides what it held.
#[verifier::external_body]
pub(crate) fn pair_set_insert(s: &mut im::HashSet<(u32, u32)>, a: (u32, u32))
    ensures
        pair_set(*final(s)) == pair_set(*old(s)).insert(a),
{
    s.insert(a);
}

/// `im::HashSet::contains`: whether the set holds `a`.
#[verifier::external_body]
pub(crate) fn pair_set_contains(s: &im::HashSet<(u32, u32)>, a: (u32, u32)) -> (r: bool)
    ensures
        r == pair_set(*s).contains(a),
{
    s.contains(&a)
}

/// `im::HashSet::len`: the number of values in the set.
#[verifier::external_body]
pub(crate) fn pair_set_len(s: &im::HashSet<(u32, u32)>) -> (r: usize)
    ensures
        r == pair_set(*s).len(),
{
    s.len()
}

/// `im::HashSet::iter`: every value of the set once, in an order that depends
/// on the hasher.
#[verifier::external_body]
pub(crate) fn pair_set_items(s: &im::HashSet<(u32, u32)>) -> (r: Vec<(u32, u32)>)
    ensures
        r@.no_duplicates(),
        r@.to_set() == pair_set(*s),
{
    s.iter().copied().collect()
}

/// How pairs of numbers are ordered: by the first number, and among equal
/// first numbers by the second.
pub open spec fn by_places() -> spec_fn((u32, u32), (u32, u32)) -> bool {
    |a: (u32, u32), b: (u32, u32)| a.0 < b.0 || (a.0 == b.0 && a.1 <= b.1)
}

/// `slice::sort_unstable` on pairs of numbers, which the standard library
/// orders by the first number and then by the second: afterwards the vector
/// holds what it held, in ascending order.
#[verifier::external_body]
pub(crate) fn sort_pairs(v: &mut Vec<(u32, u32)>)
    ensures
        final(v)@.to_multiset() == old(v)@.to_multiset(),
        vstd::relations::sorted_by(final(v)@, by_places()),
{
    v.sort_unstable();
}

/// `Clone::clone` of `im::HashSet`: a set that holds the same values.
#[verifier::external_body]
pub(crate) fn pair_set_clone(s: &im::HashSet<(u32, u32)>) -> (r: im::HashSet<(u32, u32)>)
    ensures
        pair_set(r) == pair_set(*s),
{
    s.clone()
}

/// `im::HashMap::new`: the empty map.
#[verifier::external_body]
pub(crate) fn id_map_new() -> (m: im::HashMap<u64, u32>)
    ensures
        id_map(m) == (Map::<u64, u32>::empty()),
{
    im::HashMap::new()
}

/// `im::HashMap::get`: the value stored under `k`, if there is one.
#[verifier::external_body]
pub(crate) fn id_map_get(m: &im::HashMap<u64, u32>, k: u64) -> (r: Option<u32>)
    ensures
        r == (if id_map(*m).dom().contains(k) {
            Some(id_map(*m)[k])
        } else {
            None
        }),
{
    m.get(&k).copied()
}

/// `im::HashMap::insert`: afterwards `k` maps to `v`, and every other key to
/// what it mapped to.
#[verifier::external_body]
pub(crate) fn id_map_insert(m: &mut im::HashMap<u64, u32>, k: u64, v: u32)
    ensures
        id_map(*final(m)) == id_map(*old(m)).insert(k, v),
{
    m.insert(k, v);
}

/// `im::HashMap::len`: the number of keys in the map.
#[verifier::external_body]
pub(crate) fn id_map_len(m: &im::HashMap<u64, u32>) -> (r: usize)
    ensures
        r == id_map(*m).dom().len(),
{
    m.len()
}

/// `Clone::clone` of `im::HashMap`: a map with the same keys and values.
#[verifier::external_body]
pub(crate) fn id_map_clone(m: &im::HashMap<u64, u32>) -> (r: im::HashMap<u64, u32>)
    ensures
        id_map(r) == id_map(*m),
{
    m.clone()
}

} // verus!
