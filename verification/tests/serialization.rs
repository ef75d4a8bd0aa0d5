use bevy::platform::collections::HashSet;
use bevy_tinkerbox_editor::serialization::SerializationProxies;

#[test]
fn no_proxy_at_first() {
    let p = SerializationProxies::new();
    assert_eq!(p.get_proxy(1), None);
    assert_eq!(p.get_target("x::Shadow"), None);
    assert_eq!(p.saved_as(1), 1);
    assert_eq!(p.loaded_as("x::Shadow", 9), 9);
}

#[test]
fn registered_proxy_round_trips() {
    let mut p = SerializationProxies::new();
    p.register(1, 2, "x::Shadow");
    assert_eq!(p.get_proxy(1), Some(2));
    assert_eq!(p.get_target("x::Shadow"), Some(1));
    assert_eq!(p.saved_as(1), 2);
    assert_eq!(p.loaded_as("x::Shadow", p.saved_as(1)), 1);
    assert_eq!(p.saved_as(3), 3);
    assert_eq!(p.loaded_as("y::Other", 3), 3);
}

#[test]
fn registering_again_replaces() {
    let mut p = SerializationProxies::new();
    p.register(1, 2, "x::Shadow");
    p.register(1, 4, "x::Better");
    p.register(5, 6, "x::Shadow");
    assert_eq!(p.get_proxy(1), Some(4));
    assert_eq!(p.get_proxy(5), Some(6));
    assert_eq!(p.get_target("x::Shadow"), Some(5));
    assert_eq!(p.get_target("x::Better"), Some(1));
}

#[test]
fn saved_components_go_through_proxies() {
    let mut p = SerializationProxies::new();
    p.register(1, 2, "x::Shadow");
    let desired: HashSet<u64> = [1u64, 5, 7].into_iter().collect();
    let saved = p.saved_component_set(&desired);
    let expected: HashSet<u64> = [2u64, 5, 7].into_iter().collect();
    assert_eq!(saved, expected);
    let empty: HashSet<u64> = HashSet::new();
    assert!(p.saved_component_set(&empty).is_empty());
}
