use bevy_tinkerbox_editor::reflection::{FieldSlot, ReflectKind, TypeRegistry, TypeShape, VariantKind, VariantShape};
use bevy_tinkerbox_editor::ui_plan::{component_ui_plan, variant_ui_plan, UiNodeKind};

fn slot(name: Option<&str>, type_id: u64) -> FieldSlot {
    FieldSlot { name: name.map(|n| n.to_string()), type_id: Some(type_id) }
}

fn shape(type_id: u64, kind: ReflectKind, fields: Vec<FieldSlot>, variants: Vec<VariantShape>) -> TypeShape {
    TypeShape {
        type_id,
        short_name: format!("T{type_id}"),
        has_default: true,
        deserializable: true,
        field_ui: false,
        per_field_ui: false,
        kind,
        fields,
        variants,
    }
}

/// 1: f32-like scalar; 2: Vec3 { x, y, z }; 3: Transform { translation: 2, scale: 2 };
/// 4: Color(1, 1) tuple struct; 5: enum Mode { Off, On { level: 1 }, Pair(1, 4) };
/// 6: Holder { mode: 5, items: 7, pair: 8, flag: 9 }; 7: a list; 8: a tuple; 9: bool with its own editor;
/// 10: Sprite-like struct with its own per-field editor { color: 4, size: 2 }.
fn registry() -> TypeRegistry {
    let mut flag = shape(9, ReflectKind::Opaque, vec![], vec![]);
    flag.field_ui = true;
    let mut sprite = shape(10, ReflectKind::Struct, vec![slot(Some("color"), 4), slot(Some("size"), 2)], vec![]);
    sprite.per_field_ui = true;
    TypeRegistry {
        types: vec![
            shape(1, ReflectKind::Opaque, vec![], vec![]),
            shape(2, ReflectKind::Struct, vec![slot(Some("x"), 1), slot(Some("y"), 1), slot(Some("z"), 1)], vec![]),
            shape(3, ReflectKind::Struct, vec![slot(Some("translation"), 2), slot(Some("scale"), 2)], vec![]),
            shape(4, ReflectKind::TupleStruct, vec![slot(None, 1), slot(None, 1)], vec![]),
            shape(
                5,
                ReflectKind::Enum,
                vec![],
                vec![
                    VariantShape { name: "Off".to_string(), kind: VariantKind::Unit, fields: vec![] },
                    VariantShape { name: "On".to_string(), kind: VariantKind::Struct, fields: vec![slot(Some("level"), 1)] },
                    VariantShape { name: "Pair".to_string(), kind: VariantKind::Tuple, fields: vec![slot(None, 1), slot(None, 4)] },
                ],
            ),
            shape(6, ReflectKind::Struct, vec![slot(Some("mode"), 5), slot(Some("items"), 7), slot(Some("pair"), 8), slot(Some("flag"), 9)], vec![]),
            shape(7, ReflectKind::List, vec![], vec![]),
            shape(8, ReflectKind::Tuple, vec![slot(None, 1), slot(None, 1)], vec![]),
            flag,
            sprite,
        ],
    }
}

fn summary(reg: &TypeRegistry, t: u64) -> Vec<(String, String, UiNodeKind, usize)> {
    component_ui_plan(reg, t, u64::MAX).unwrap().into_iter().map(|n| (n.path, n.name, n.kind, n.field_count)).collect()
}

fn row(path: &str, name: &str, kind: UiNodeKind, n: usize) -> (String, String, UiNodeKind, usize) {
    (path.to_string(), name.to_string(), kind, n)
}

#[test]
fn nested_structs_are_walked_in_order() {
    let reg = registry();
    assert_eq!(
        summary(&reg, 3),
        vec![
            row("", "", UiNodeKind::Struct, 2),
            row("translation", "translation", UiNodeKind::Struct, 3),
            row("translation.x", "x", UiNodeKind::Text, 0),
            row("translation.y", "y", UiNodeKind::Text, 0),
            row("translation.z", "z", UiNodeKind::Text, 0),
            row("scale", "scale", UiNodeKind::Struct, 3),
            row("scale.x", "x", UiNodeKind::Text, 0),
            row("scale.y", "y", UiNodeKind::Text, 0),
            row("scale.z", "z", UiNodeKind::Text, 0),
        ]
    );
}

#[test]
fn tuple_struct_fields_are_numbered() {
    let reg = registry();
    assert_eq!(
        summary(&reg, 4),
        vec![row("", "", UiNodeKind::TupleStruct, 2), row(".0", "0", UiNodeKind::Text, 0), row(".1", "1", UiNodeKind::Text, 0)]
    );
}

#[test]
fn enums_lists_tuples_and_own_editors_are_single_entries() {
    let reg = registry();
    assert_eq!(
        summary(&reg, 6),
        vec![
            row("", "", UiNodeKind::Struct, 4),
            row("mode", "mode", UiNodeKind::Enum, 0),
            row("items", "items", UiNodeKind::List, 0),
            row("pair", "pair", UiNodeKind::Hidden, 0),
            row("flag", "flag", UiNodeKind::FieldEditor, 0),
        ]
    );
    assert_eq!(summary(&reg, 9), vec![row("", "", UiNodeKind::FieldEditor, 0)]);
}

#[test]
fn per_field_editor_takes_each_field() {
    let reg = registry();
    let nodes = component_ui_plan(&reg, 10, u64::MAX).unwrap();
    assert_eq!(nodes.len(), 3);
    assert_eq!(nodes[1].kind, UiNodeKind::CustomField);
    assert_eq!(nodes[1].type_id, 4);
    assert_eq!(nodes[2].path, "size");
}

#[test]
fn variant_fields_hang_below_the_enum_path() {
    let reg = registry();
    assert!(variant_ui_plan(&reg, 5, 0, "mode", u64::MAX).unwrap().is_empty());
    let on: Vec<(String, String)> = variant_ui_plan(&reg, 5, 1, "mode", u64::MAX).unwrap().into_iter().map(|n| (n.path, n.name)).collect();
    assert_eq!(on, vec![("mode.level".to_string(), "level".to_string())]);
    let pair = variant_ui_plan(&reg, 5, 2, "mode", u64::MAX).unwrap();
    assert_eq!(pair.len(), 4);
    assert_eq!(pair[0].path, "mode.0");
    assert_eq!(pair[1].path, "mode.1");
    assert_eq!(pair[1].kind, UiNodeKind::TupleStruct);
    assert_eq!(pair[3].path, "mode.1.1");
}

#[test]
fn views_that_cannot_be_shown_give_nothing() {
    let reg = registry();
    assert!(component_ui_plan(&reg, 99, u64::MAX).is_none());
    assert!(component_ui_plan(&reg, 3, 1).is_none());
    assert!(component_ui_plan(&reg, 3, 2).is_some());
    assert!(variant_ui_plan(&reg, 5, 7, "mode", u64::MAX).is_none());
    assert!(variant_ui_plan(&reg, 3, 0, "t", u64::MAX).is_none());
    let mut broken = registry();
    broken.types[1].fields[0].type_id = None;
    assert!(component_ui_plan(&broken, 3, u64::MAX).is_none());
}

#[test]
fn tuple_fields_below_the_selected_root_stand_alone() {
    let reg = registry();
    let nodes = variant_ui_plan(&reg, 5, 2, "mode", u64::MAX).unwrap();
    assert_eq!(nodes[1].path, "mode.1");
    assert_eq!(nodes[2].path, "mode.1.0");
}
