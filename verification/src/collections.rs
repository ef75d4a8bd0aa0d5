//! bevy's platform hash collections, as the library uses them.
//!
//! The sets hold type ids; the maps go from type ids, or from type paths, to
//! type ids. What a collection holds is named by a spec function, and each
//! method the library calls says what it does to that content, as bevy's
//! collections (thin wrappers over hashbrown's) document it.
use vstd::prelude::*;
use bevy::platform::collections::{HashMap, HashSet};
use bevy::platform::hash::FixedHasher;

verus! {

#[verifier::external_type_specification]
#[verifier::external_body]
#[verifier::reject_recursive_types(K)]
#[verifier::reject_recursive_types(V)]
#[verifier::reject_recursive_types(S)]
pub struct ExHashMap<K, V, S>(HashMap<K, V, S>);

#[verifier::external_type_specification]
#[verifier::external_body]
#[verifier::reject_recursive_types(T)]
#[verifier::reject_recursive_types(S)]
pub struct ExHashSet<T, S>(HashSet<T, S>);

#[verifier::external_type_specification]
#[verifier::external_body]
pub struct ExFixedHasher(FixedHasher);

/// The ids that a set holds.
pub uninterp spec fn set_ids(s: HashSet<u64>) -> Set<u64>;

/// What a map from type ids to type ids holds.
pub uninterp spec fn id_entries(m: HashMap<u64, u64>) -> Map<u64, u64>;

/// What a map from type paths to type ids holds.
pub uninterp spec fn path_entries(m: HashMap<String, u64>) -> Map<Seq<char>, u64>;

/// `HashSet::new`: an empty set.
#[verifier::external_body]
pub(crate) fn id_set_new() -> (fresh: HashSet<u64>)
    ensures
        set_ids(fresh) =~= Set::empty(),
{
    HashSet::new()
}

/// `HashSet::contains`: whether the set holds `x`.
#[verifier::external_body]
pub(crate) fn id_set_contains(s: &HashSet<u64>, x: u64) -> (found: bool)
    ensures
        found == set_ids(*s).contains(x),
{
    s.contains(&x)
}

/// `HashSet::insert`: adds `x`, and says whether it was not there before.
#[verifier::external_body]
pub(crate) fn id_set_insert(s: &mut HashSet<u64>, x: u64) -> (added: bool)
    ensures
        set_ids(*final(s)) == set_ids(*old(s)).insert(x),
        added == !set_ids(*old(s)).contains(x),
{
    s.insert(x)
}

/// `HashSet::remove`: takes `x` out, and says whether it was there.
#[verifier::external_body]
pub(crate) fn id_set_remove(s: &mut HashSet<u64>, x: u64) -> (removed: bool)
    ensures
        set_ids(*final(s)) == set_ids(*old(s)).remove(x),
        removed == set_ids(*old(s)).contains(x),
{
    s.remove(&x)
}

/// `HashSet::iter`, collected: every element once, in the set's own order,
/// which this leaves unsaid.
#[verifier::external_body]
pub(crate) fn id_set_items(s: &HashSet<u64>) -> (items: Vec<u64>)
    ensures
        items@.no_duplicates(),
        items@.to_set() == set_ids(*s),
{
    s.iter().copied().collect()
}

/// `HashSet::difference`, collected: the elements of `a` that `b` lacks.
#[verifier::external_body]
pub(crate) fn id_set_difference(a: &HashSet<u64>, b: &HashSet<u64>) -> (d: HashSet<u64>)
    ensures
        set_ids(d) == set_ids(*a).difference(set_ids(*b)),
{
    a.difference(b).copied().collect()
}

/// `HashSet::union`, collected: the elements of either set.
#[verifier::external_body]
pub(crate) fn id_set_union(a: &HashSet<u64>, b: &HashSet<u64>) -> (u: HashSet<u64>)
    ensures
        set_ids(u) == set_ids(*a).union(set_ids(*b)),
{
    a.union(b).copied().collect()
}

/// `HashSet`'s `FromIterator`: the set of the vector's elements.
#[verifier::external_body]
pub(crate) fn id_set_from(v: Vec<u64>) -> (s: HashSet<u64>)
    ensures
        set_ids(s) == v@.to_set(),
{
    v.into_iter().collect()
}

/// `HashMap::new`: an empty map.
#[verifier::external_body]
pub(crate) fn new_id_map() -> (fresh: HashMap<u64, u64>)
    ensures
        id_entries(fresh) =~= Map::empty(),
{
    HashMap::new()
}

/// `HashMap::new`, keyed by type path: an empty map.
#[verifier::external_body]
pub(crate) fn new_path_map() -> (fresh: HashMap<String, u64>)
    ensures
        path_entries(fresh) =~= Map::empty(),
{
    HashMap::new()
}

/// `HashMap::get`: the value stored for `k`, if there is one.
#[verifier::external_body]
pub(crate) fn id_map_get(m: &HashMap<u64, u64>, k: u64) -> (r: Option<u64>)
    ensures
        r == (if id_entries(*m).dom().contains(k) {
            Some(id_entries(*m)[k])
        } else {
            None
        }),
{
    m.get(&k).copied()
}

/// `HashMap::get`, looked up by a `&str` against `String` keys: the value
/// stored under the same text, if there is one.
#[verifier::external_body]
pub(crate) fn path_map_get(m: &HashMap<String, u64>, k: &str) -> (r: Option<u64>)
    ensures
        r == (if path_entries(*m).dom().contains(k@) {
            Some(path_entries(*m)[k@])
        } else {
            None
        }),
{
    m.get(k).copied()
}

/// `HashMap::insert`: afterwards `k` maps to `v`, and every other key keeps
/// its value.
#[verifier::external_body]
pub(crate) fn id_map_insert(m: &mut HashMap<u64, u64>, k: u64, v: u64)
    ensures
        id_entries(*final(m)) == id_entries(*old(m)).insert(k, v),
{
    m.insert(k, v);
}

/// `HashMap::insert`, keyed by type path: afterwards the text of `k` maps to
/// `v`, and every other key keeps its value.
#[verifier::external_body]
pub(crate) fn path_map_insert(m: &mut HashMap<String, u64>, k: String, v: u64)
    ensures
        path_entries(*final(m)) == path_entries(*old(m)).insert(k@, v),
{
    m.insert(k, v);
}

} // verus!
