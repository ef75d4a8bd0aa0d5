use bevy_tinkerbox_editor::text::{
    chars_of, component_entry_label, decimal_string, deserializer_hint, list_item_path, matches_filter,
    name_plate, push_decimal, same_text, struct_field_path, tuple_field_path, variant_field_path,
};

#[test]
fn decimals_as_to_string_writes_them() {
    assert_eq!(decimal_string(0), "0");
    assert_eq!(decimal_string(7), "7");
    assert_eq!(decimal_string(10), "10");
    assert_eq!(decimal_string(1234), "1234");
    assert_eq!(decimal_string(usize::MAX), usize::MAX.to_string());
    let mut s = String::from("row ");
    push_decimal(&mut s, 305);
    assert_eq!(s, "row 305");
}

#[test]
fn text_comparison() {
    assert_eq!(chars_of("hé!"), vec!['h', 'é', '!']);
    assert!(same_text("abc", "abc"));
    assert!(!same_text("abc", "abd"));
    assert!(!same_text("abc", "ab"));
}

#[test]
fn component_filter() {
    assert!(matches_filter("Transform", "form"));
    assert!(matches_filter("Transform", "Transform"));
    assert!(matches_filter("Transform", ""));
    assert!(!matches_filter("Transform", "xyz"));
    assert!(!matches_filter("Sprite", "Sprites"));
    assert!(!matches_filter("Transform", "transform"));
    assert!(matches_filter("", ""));
}

#[test]
fn field_paths() {
    assert_eq!(struct_field_path("", "translation"), "translation");
    assert_eq!(struct_field_path("transform", "translation"), "transform.translation");
    assert_eq!(tuple_field_path("SelectedEntityUiRoot", 3), "3");
    assert_eq!(tuple_field_path("color", 3), "color.3");
    assert_eq!(tuple_field_path("", 0), ".0");
    assert_eq!(variant_field_path("mode", "size"), "mode.size");
    assert_eq!(list_item_path("items", 12), "items[12]");
}

#[test]
fn deserializer_input() {
    assert_eq!(deserializer_hint("glam::Vec2", "(x: 1.0, y: 2.0)"), "{\"glam::Vec2\":(x: 1.0, y: 2.0)}");
    assert_eq!(deserializer_hint("u32", "5"), "{\"u32\":5}");
}

#[test]
fn entity_labels() {
    assert_eq!(name_plate(Some("Player"), "12v3"), "Player : Entity(12v3)");
    assert_eq!(name_plate(None, "12v3"), "Entity(12v3)");
}

#[test]
fn component_browser_labels() {
    assert_eq!(component_entry_label("Sprite", true), "Sprite | ");
    assert_eq!(component_entry_label("Sprite", false), "Sprite | no ReflectDefault impl");
}
