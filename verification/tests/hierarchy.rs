use bevy_tinkerbox_editor::hierarchy::{Hierarchy, HierarchyNode};

fn node(entity: u64, marked: bool, parent: Option<u64>) -> HierarchyNode {
    HierarchyNode { entity, marked, parent }
}

fn tree() -> Hierarchy {
    Hierarchy {
        nodes: vec![
            node(1, true, None),
            node(2, false, Some(1)),
            node(3, false, Some(2)),
            node(4, true, Some(2)),
            node(5, false, Some(4)),
            node(6, false, Some(99)),
            node(7, false, None),
        ],
    }
}

#[test]
fn nearest_marked_ancestor() {
    let h = tree();
    assert_eq!(h.find_marked_ancestor(3, u64::MAX), Some(Some(1)));
    assert_eq!(h.find_marked_ancestor(5, u64::MAX), Some(Some(4)));
    assert_eq!(h.find_marked_ancestor(4, 0), Some(Some(4)));
}

#[test]
fn walk_that_ends_without_mark() {
    let h = tree();
    assert_eq!(h.find_marked_ancestor(6, u64::MAX), Some(None));
    assert_eq!(h.find_marked_ancestor(7, u64::MAX), Some(None));
    assert_eq!(h.find_marked_ancestor(42, u64::MAX), Some(None));
}

#[test]
fn walk_cut_short_by_the_step_limit() {
    let h = tree();
    assert_eq!(h.find_marked_ancestor(3, 1), None);
    assert_eq!(h.find_marked_ancestor(3, 2), Some(Some(1)));
    let cycle = Hierarchy { nodes: vec![node(1, false, Some(2)), node(2, false, Some(1))] };
    assert_eq!(cycle.find_marked_ancestor(1, 100), None);
}
