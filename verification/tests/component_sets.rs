use bevy_tinkerbox_editor::component_sets::{component_card_slot, live_requirements_of, ComponentTypeInfo, EntityUiRoot, TypeCatalog};

fn info(type_id: u64, registered: bool, required: Vec<u64>) -> ComponentTypeInfo {
    ComponentTypeInfo { type_id, registered, required }
}

/// 1 requires 2 and 3 (3 is not registered); 4 requires 1 and 2; 5 requires nothing.
fn catalog() -> TypeCatalog {
    TypeCatalog {
        entries: vec![
            info(1, true, vec![2, 3]),
            info(2, true, vec![]),
            info(3, false, vec![]),
            info(4, true, vec![1, 2, 2]),
            info(5, true, vec![]),
        ],
    }
}

fn sorted(mut v: Vec<u64>) -> Vec<u64> {
    v.sort();
    v
}

#[test]
fn catalog_lookups() {
    let cat = catalog();
    assert_eq!(cat.find(4), Some(3));
    assert_eq!(cat.find(9), None);
    assert!(cat.registered(2));
    assert!(!cat.registered(3));
    assert!(!cat.registered(9));
    assert_eq!(cat.requirements(4), vec![1, 2, 2]);
    assert!(cat.requirements(9).is_empty());
}

#[test]
fn new_root_shows_nothing() {
    let root = EntityUiRoot::new(42);
    assert_eq!(root.world_target, 42);
    assert!(root.desired_components().is_empty());
    assert!(root.ride_along_set().is_empty());
}

#[test]
fn selecting_brings_registered_requirements_along() {
    let cat = catalog();
    let mut root = EntityUiRoot::new(7);
    let fx = root.select_component(1, true, &cat);
    assert!(fx.accepted);
    assert!(!fx.released_ride_along);
    assert_eq!(fx.new_ride_along_views, vec![2]);
    assert!(root.desires(1));
    assert!(root.rides_along(2));
    assert!(!root.rides_along(3));
    assert_eq!(root.world_target, 7);
}

#[test]
fn selecting_twice_or_without_value_changes_nothing() {
    let cat = catalog();
    let mut root = EntityUiRoot::new(7);
    root.select_component(1, true, &cat);
    let again = root.select_component(1, true, &cat);
    assert!(!again.accepted);
    assert!(again.new_ride_along_views.is_empty());
    let failed = root.select_component(5, false, &cat);
    assert!(!failed.accepted);
    assert!(!root.desires(5));
    assert_eq!(sorted(root.desired_components()), vec![1]);
}

#[test]
fn selecting_a_ride_along_component_releases_it() {
    let cat = catalog();
    let mut root = EntityUiRoot::new(7);
    root.select_component(1, true, &cat);
    let fx = root.select_component(2, true, &cat);
    assert!(fx.accepted);
    assert!(fx.released_ride_along);
    assert!(fx.new_ride_along_views.is_empty());
    assert!(!root.rides_along(2));
    assert_eq!(sorted(root.desired_components()), vec![1, 2]);
}

#[test]
fn views_are_only_for_components_not_shown_yet() {
    let cat = catalog();
    let mut root = EntityUiRoot::new(7);
    root.select_component(1, true, &cat);
    let fx = root.select_component(4, true, &cat);
    assert!(fx.accepted);
    assert!(fx.new_ride_along_views.is_empty());
    assert_eq!(sorted(root.ride_along_set()), vec![2]);
    assert!(!root.rides_along(1));
}

#[test]
fn adopting_a_loaded_component() {
    let cat = catalog();
    let mut root = EntityUiRoot::new(7);
    let fx = root.adopt_component(4, &cat);
    assert_eq!(fx.new_ride_along_views, vec![1, 2]);
    assert!(!fx.released_ride_along);
    assert!(root.desires(4));
    let fx = root.adopt_component(1, &cat);
    assert!(fx.new_ride_along_views.is_empty());
    assert!(fx.released_ride_along);
    assert!(root.desires(1));
    assert!(!root.rides_along(1));
    assert_eq!(sorted(root.ride_along_set()), vec![2]);
}

#[test]
fn removing_the_last_component_clears_everything() {
    let cat = catalog();
    let mut root = EntityUiRoot::new(7);
    root.select_component(1, true, &cat);
    let fx = root.remove_component(1, &cat, &vec![(500, 2), (501, 5)]);
    assert!(!fx.keep_view_of_removed);
    assert_eq!(fx.despawn_views, vec![500]);
    assert_eq!(sorted(fx.strip_components), vec![1, 2, 3]);
    assert!(root.desired_components().is_empty());
    assert!(root.ride_along_set().is_empty());
}

#[test]
fn removing_a_still_required_component_keeps_a_view() {
    let cat = catalog();
    let mut root = EntityUiRoot::new(7);
    root.select_component(1, true, &cat);
    root.select_component(4, true, &cat);
    let fx = root.remove_component(1, &cat, &vec![(600, 2)]);
    assert!(fx.keep_view_of_removed);
    assert!(fx.strip_components.is_empty());
    assert!(fx.despawn_views.is_empty());
    assert!(!root.desires(1));
    assert!(root.rides_along(1));
    assert!(root.rides_along(2));
}

#[test]
fn chosen_requirement_is_never_ride_along() {
    let cat = catalog();
    let mut root = EntityUiRoot::new(7);
    root.select_component(2, true, &cat);
    let fx = root.select_component(1, true, &cat);
    assert!(fx.accepted);
    assert!(fx.new_ride_along_views.is_empty());
    assert!(root.desires(2));
    assert!(!root.rides_along(2));
    assert!(root.ride_along_set().is_empty());
}

#[test]
fn removal_keeps_chosen_components_on_the_entity() {
    let cat = catalog();
    let mut root = EntityUiRoot::new(7);
    root.select_component(2, true, &cat);
    root.select_component(1, true, &cat);
    let fx = root.remove_component(1, &cat, &vec![]);
    assert!(!fx.keep_view_of_removed);
    assert_eq!(sorted(fx.strip_components), vec![1, 3]);
    assert_eq!(sorted(root.desired_components()), vec![2]);
    assert!(root.ride_along_set().is_empty());
}

#[test]
fn removal_never_makes_a_chosen_component_ride_along() {
    let cat = catalog();
    let mut root = EntityUiRoot::new(7);
    root.select_component(4, true, &cat);
    root.select_component(1, true, &cat);
    root.select_component(5, true, &cat);
    root.remove_component(5, &cat, &vec![]);
    assert!(root.desires(1));
    assert!(!root.rides_along(1));
    for r in root.ride_along_set() {
        assert!(!root.desires(r));
    }
}

#[test]
fn select_then_remove_restores_the_chosen_set() {
    let cat = catalog();
    let mut root = EntityUiRoot::new(7);
    root.select_component(5, true, &cat);
    let before = sorted(root.desired_components());
    root.select_component(1, true, &cat);
    root.remove_component(1, &cat, &vec![]);
    assert_eq!(sorted(root.desired_components()), before);
    assert!(root.ride_along_set().is_empty());
}

#[test]
fn ride_along_stays_justified() {
    let cat = catalog();
    let mut root = EntityUiRoot::new(7);
    root.select_component(4, true, &cat);
    root.select_component(5, true, &cat);
    root.remove_component(4, &cat, &vec![]);
    let live = live_requirements_of(&root.desired_components(), &cat);
    for r in root.ride_along_set() {
        assert!(live.contains(&r));
        assert!(!root.desires(r));
    }
}

#[test]
fn live_requirements_collects_each_once() {
    let cat = catalog();
    let live = live_requirements_of(&vec![1, 4, 9], &cat);
    assert_eq!(sorted(live.into_iter().collect()), vec![1, 2, 3]);
}

#[test]
fn card_slot_goes_before_first_view() {
    assert_eq!(component_card_slot(&vec![false, false, true, false]), 2);
    assert_eq!(component_card_slot(&vec![true]), 0);
    assert_eq!(component_card_slot(&vec![false, false]), 2);
    assert_eq!(component_card_slot(&vec![]), 0);
}
