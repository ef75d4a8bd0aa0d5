//! Walking up the UI hierarchy to the nearest marked ancestor.
//!
//! Several parts of the editor look for the closest entity, starting from an
//! element and moving from child to parent, that carries some marker (the
//! root of an entity UI, the root of a component UI). Entities are ids; the
//! walk stops without a result when it reaches an entity without a parent
//! or an entity that no longer exists.
use vstd::prelude::*;

verus! {

/// One entity of the hierarchy: whether it carries the marker, and its parent.
#[derive(Clone, Copy, Debug, PartialEq, Eq, Structural)]
pub struct HierarchyNode {
    pub entity: u64,
    pub marked: bool,
    pub parent: Option<u64>,
}

/// The live entities; the first node for an id is the one that counts.
pub struct Hierarchy {
    pub nodes: Vec<HierarchyNode>,
}

pub open spec fn node_from(nodes: Seq<HierarchyNode>, e: u64, i: int) -> Option<HierarchyNode>
    decreases nodes.len() - i,
{
    if i < 0 || i >= nodes.len() {
        None
    } else if nodes[i].entity == e {
        Some(nodes[i])
    } else {
        node_from(nodes, e, i + 1)
    }
}

/// The node of a live entity.
pub open spec fn node_of(h: Hierarchy, e: u64) -> Option<HierarchyNode> {
    node_from(h.nodes@, e, 0)
}

/// The `k`-th entity on the way up from `start`, while every entity on the
/// way exists and has a parent.
pub open spec fn walk(h: Hierarchy, start: u64, k: nat) -> Option<u64>
    decreases k,
{
    if k == 0 {
        if node_of(h, start) is Some {
            Some(start)
        } else {
            None
        }
    } else {
        match walk(h, start, (k - 1) as nat) {
            Some(e) => match node_of(h, e)->0.parent {
                Some(p) => if node_of(h, p) is Some {
                    Some(p)
                } else {
                    None
                },
                None => None,
            },
            None => None,
        }
    }
}

/// Whether the `k`-th step of the walk reaches a marked entity.
pub open spec fn marked_at(h: Hierarchy, start: u64, k: nat) -> bool {
    match walk(h, start, k) {
        Some(e) => node_of(h, e)->0.marked,
        None => false,
    }
}

/// No step before `k` stops the walk.
pub open spec fn unmarked_before(h: Hierarchy, start: u64, k: nat) -> bool {
    forall|j: nat| j < k ==> #[trigger] walk(h, start, j) is Some && !marked_at(h, start, j)
}

impl Hierarchy {
    fn node(&self, e: u64) -> (n: Option<HierarchyNode>)
        ensures
            n == node_of(*self, e),
    {
        let mut i: usize = 0;
        while i < self.nodes.len()
            invariant
                i <= self.nodes@.len(),
                node_from(self.nodes@, e, 0) == node_from(self.nodes@, e, i as int),
            decreases self.nodes@.len() - i,
        {
            if self.nodes[i].entity == e {
                return Some(self.nodes[i]);
            }
            i = i + 1;
        }
        None
    }

    /// The nearest entity, `start` itself or one of its ancestors, that
    /// carries the marker, looking at most `steps` steps up: `Some(Some(e))`
    /// when found, `Some(None)` when the walk up ends first, `None` when
    /// neither happens within `steps` steps.
    pub fn find_marked_ancestor(&self, start: u64, steps: u64) -> (found: Option<Option<u64>>)
        ensures
            match found {
                Some(Some(e)) => exists|k: nat|
                    k <= steps && walk(*self, start, k) == Some(e) && marked_at(*self, start, k)
                        && unmarked_before(*self, start, k),
                Some(None) => exists|k: nat|
                    k <= steps && walk(*self, start, k) is None && unmarked_before(*self, start, k),
                None => unmarked_before(*self, start, (steps + 1) as nat),
            },
    {
        let mut cursor: Option<u64> = match self.node(start) {
            Some(_) => Some(start),
            None => None,
        };
        let mut k: u64 = 0;
        loop
            invariant
                k <= steps,
                cursor == walk(*self, start, k as nat),
                unmarked_before(*self, start, k as nat),
            decreases steps - k,
        {
            match cursor {
                None => {
                    return Some(None);
                },
                Some(e) => {
                    let n = self.node(e);
                    let node = match n {
                        Some(node) => node,
                        None => {
                            return Some(None);
                        },
                    };
                    if node.marked {
                        return Some(Some(e));
                    }
                    proof {
                        assert(!marked_at(*self, start, k as nat));
                        assert forall|j: nat| j < k + 1 implies #[trigger] walk(*self, start, j) is Some
                            && !marked_at(*self, start, j) by {
                            if j < k {
                            }
                        }
                    }
                    if k == steps {
                        return None;
                    }
                    cursor = match node.parent {
                        Some(p) => match self.node(p) {
                            Some(_) => Some(p),
                            None => None,
                        },
                        None => None,
                    };
                    k = k + 1;
                },
            }
        }
    }
}

} // verus!
