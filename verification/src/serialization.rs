//! Serialization proxies: component types that are saved in the form of
//! another, serialization-friendly type and turned back on loading.
//!
//! Type ids are plain integers; a proxy is also known by its type path, the
//! name under which it appears in a saved scene. Both directions are kept in
//! bevy's hash maps.
use vstd::prelude::*;
use bevy::platform::collections::{HashMap, HashSet};
use crate::collections::{
    set_ids, id_set_items, id_set_from,
    id_entries, path_entries, new_id_map, new_path_map, id_map_get, path_map_get, id_map_insert,
    path_map_insert,
};

verus! {

/// Which proxy stands for which target type, both ways.
pub struct SerializationProxies {
    proxies_by_target: HashMap<u64, u64>,
    targets_by_proxy: HashMap<String, u64>,
}

/// The type under which a component of type `t` is saved.
pub open spec fn saved_type(p: SerializationProxies, t: u64) -> u64 {
    match p.proxy_of(t) {
        Some(x) => x,
        None => t,
    }
}

/// The type that a loaded component of type `t`, with type path `path`, is
/// restored as.
pub open spec fn restored_type(p: SerializationProxies, path: Seq<char>, t: u64) -> u64 {
    match p.target_of(path) {
        Some(x) => x,
        None => t,
    }
}

impl SerializationProxies {
    /// The proxy registered for `target`.
    pub closed spec fn proxy_of(&self, target: u64) -> Option<u64> {
        if id_entries(self.proxies_by_target).dom().contains(target) {
            Some(id_entries(self.proxies_by_target)[target])
        } else {
            None
        }
    }

    /// The target type registered for the proxy with type path `proxy_path`.
    pub closed spec fn target_of(&self, proxy_path: Seq<char>) -> Option<u64> {
        if path_entries(self.targets_by_proxy).dom().contains(proxy_path) {
            Some(path_entries(self.targets_by_proxy)[proxy_path])
        } else {
            None
        }
    }

    /// No proxy yet.
    pub fn new() -> (p: SerializationProxies)
        ensures
            forall|t: u64| p.proxy_of(t) is None,
            forall|s: Seq<char>| p.target_of(s) is None,
    {
        SerializationProxies { proxies_by_target: new_id_map(), targets_by_proxy: new_path_map() }
    }

    /// The proxy that stands for `target` when saving.
    pub fn get_proxy(&self, target: u64) -> (proxy: Option<u64>)
        ensures
            proxy == self.proxy_of(target),
    {
        id_map_get(&self.proxies_by_target, target)
    }

    /// The target type that a proxy, known by its type path, stands for.
    pub fn get_target(&self, proxy_path: &str) -> (target: Option<u64>)
        ensures
            target == self.target_of(proxy_path@),
    {
        path_map_get(&self.targets_by_proxy, proxy_path)
    }

    /// Records that `proxy`, whose type path is `proxy_path`, stands for
    /// `target`; an earlier record for either key is replaced.
    pub fn register(&mut self, target: u64, proxy: u64, proxy_path: &str)
        ensures
            final(self).proxy_of(target) == Some(proxy),
            final(self).target_of(proxy_path@) == Some(target),
            forall|t: u64| t != target ==> final(self).proxy_of(t) == old(self).proxy_of(t),
            forall|s: Seq<char>| s != proxy_path@ ==> final(self).target_of(s) == old(self).target_of(s),
    {
        id_map_insert(&mut self.proxies_by_target, target, proxy);
        path_map_insert(&mut self.targets_by_proxy, String::from_str(proxy_path), target);
    }

    /// The type under which a component of type `t` is saved.
    pub fn saved_as(&self, t: u64) -> (s: u64)
        ensures
            s == saved_type(*self, t),
    {
        match self.get_proxy(t) {
            Some(p) => p,
            None => t,
        }
    }

    /// The type that a loaded component, of type `t` with type path `path`,
    /// is restored as.
    pub fn loaded_as(&self, path: &str, t: u64) -> (r: u64)
        ensures
            r == restored_type(*self, path@, t),
    {
        match self.get_target(path) {
            Some(x) => x,
            None => t,
        }
    }
}

/// The types under which components of the types in `d` are saved.
pub open spec fn saved_types(p: SerializationProxies, d: Set<u64>) -> Set<u64> {
    Set::new(|x: u64| exists|t: u64| d.contains(t) && saved_type(p, t) == x)
}

impl SerializationProxies {
    /// The component filter for saving an entity: each chosen component
    /// type, or the proxy that stands for it.
    pub fn saved_component_set(&self, desired: &HashSet<u64>) -> (s: HashSet<u64>)
        ensures
            set_ids(s) == saved_types(*self, set_ids(*desired)),
    {
        let items = id_set_items(desired);
        let mut out: Vec<u64> = Vec::new();
        let mut i: usize = 0;
        while i < items.len()
            invariant
                i <= items@.len(),
                forall|x: u64|
                    out@.contains(x) <==> exists|j: int|
                        0 <= j < i && #[trigger] saved_type(*self, items@[j]) == x,
            decreases items@.len() - i,
        {
            let x = self.saved_as(items[i]);
            let ghost before = out@;
            out.push(x);
            proof {
                assert forall|y: u64|
                    out@.contains(y) <==> exists|j: int|
                        0 <= j < i + 1 && #[trigger] saved_type(*self, items@[j]) == y by {
                    if out@.contains(y) {
                        let k = choose|k: int| 0 <= k < out@.len() && out@[k] == y;
                        if k < before.len() {
                            assert(before.contains(y));
                        } else {
                            assert(saved_type(*self, items@[i as int]) == y);
                        }
                    }
                    if exists|j: int| 0 <= j < i + 1 && #[trigger] saved_type(*self, items@[j]) == y {
                        let j = choose|j: int| 0 <= j < i + 1 && #[trigger] saved_type(*self, items@[j]) == y;
                        if j < i {
                            assert(before.contains(y));
                            let k = choose|k: int| 0 <= k < before.len() && before[k] == y;
                            assert(out@[k] == y);
                        } else {
                            assert(out@[before.len() as int] == y);
                        }
                    }
                }
            }
            i = i + 1;
        }
        let s = id_set_from(out);
        proof {
            assert forall|x: u64| set_ids(s).contains(x) <==> saved_types(*self, set_ids(*desired)).contains(x) by {
                if set_ids(s).contains(x) {
                    assert(out@.to_set().contains(x));
                    let j = choose|j: int| 0 <= j < items@.len() && #[trigger] saved_type(*self, items@[j]) == x;
                    assert(items@.to_set().contains(items@[j]));
                }
                if saved_types(*self, set_ids(*desired)).contains(x) {
                    let t = choose|t: u64| set_ids(*desired).contains(t) && saved_type(*self, t) == x;
                    assert(items@.to_set().contains(t));
                    let j = choose|j: int| 0 <= j < items@.len() && items@[j] == t;
                    assert(saved_type(*self, items@[j]) == x);
                    assert(out@.contains(x));
                    assert(out@.to_set().contains(x));
                }
            }
            assert(set_ids(s) =~= saved_types(*self, set_ids(*desired)));
        }
        s
    }
}

/// Once `proxy`, known by `proxy_path`, is registered for `target`, a
/// component of type `target` is saved as `proxy`, and what is loaded under
/// `proxy_path` is restored as `target`.
pub proof fn lemma_proxy_round_trip(
    proxies: SerializationProxies,
    target: u64,
    proxy: u64,
    proxy_path: Seq<char>,
)
    requires
        proxies.proxy_of(target) == Some(proxy),
        proxies.target_of(proxy_path) == Some(target),
    ensures
        saved_type(proxies, target) == proxy,
        restored_type(proxies, proxy_path, saved_type(proxies, target)) == target,
{
}

} // verus!
