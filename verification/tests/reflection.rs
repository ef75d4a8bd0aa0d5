use bevy_tinkerbox_editor::reflection::{
    enum_variant_switch, field_is_parseable, instantiation_plan, radio_columns, Build,
    EnumMetadata, FieldAccessPath, FieldSlot, ReflectKind, TypeRegistry, TypeShape,
    UpdateComponentFieldValue, VariantKind, VariantShape,
};

const DEPTH: u64 = u64::MAX;

fn slot(name: Option<&str>, type_id: Option<u64>) -> FieldSlot {
    FieldSlot { name: name.map(|n| n.to_string()), type_id }
}

fn shape(type_id: u64, name: &str, has_default: bool, kind: ReflectKind, fields: Vec<FieldSlot>, variants: Vec<VariantShape>) -> TypeShape {
    TypeShape {
        type_id,
        short_name: name.to_string(),
        has_default,
        deserializable: kind == ReflectKind::Opaque,
        field_ui: false,
        per_field_ui: false,
        kind,
        fields,
        variants,
    }
}

fn variant(name: &str, kind: VariantKind, fields: Vec<FieldSlot>) -> VariantShape {
    VariantShape { name: name.to_string(), kind, fields }
}

/// 10: a scalar with a default; 11: Point { x: 10, y: 10 } without default;
/// 12: enum Shape { Dot, Pair(10, 10), Boxed { corner: 11 } } without default;
/// 13: a list without default; 14: a struct with a field of unknown type;
/// 15: a scalar without deserializer; 16: a tuple (10, 11).
fn registry() -> TypeRegistry {
    let mut no_deser = shape(15, "Handle", true, ReflectKind::Opaque, vec![], vec![]);
    no_deser.deserializable = false;
    TypeRegistry {
        types: vec![
            shape(10, "u32", true, ReflectKind::Opaque, vec![], vec![]),
            shape(11, "Point", false, ReflectKind::Struct, vec![slot(Some("x"), Some(10)), slot(Some("y"), Some(10))], vec![]),
            shape(
                12,
                "Shape",
                false,
                ReflectKind::Enum,
                vec![],
                vec![
                    variant("Dot", VariantKind::Unit, vec![]),
                    variant("Pair", VariantKind::Tuple, vec![slot(None, Some(10)), slot(None, Some(10))]),
                    variant("Boxed", VariantKind::Struct, vec![slot(Some("corner"), Some(11))]),
                ],
            ),
            shape(13, "Vec<u32>", false, ReflectKind::List, vec![], vec![]),
            shape(14, "Odd", false, ReflectKind::Struct, vec![slot(Some("mystery"), None)], vec![]),
            no_deser,
            shape(16, "(u32, Point)", false, ReflectKind::Tuple, vec![slot(None, Some(10)), slot(None, Some(11))], vec![]),
        ],
    }
}

fn summary(reg: &TypeRegistry, t: u64, v: Option<usize>) -> Result<Vec<(u64, Option<String>, Build, usize)>, String> {
    instantiation_plan(reg, t, v, DEPTH).expect("finishes").map(|steps| {
        steps.into_iter().map(|s| (s.type_id, s.label, s.build, s.field_count)).collect()
    })
}

fn lab(s: &str) -> Option<String> {
    Some(s.to_string())
}

#[test]
fn default_is_used_when_registered() {
    let reg = registry();
    assert_eq!(summary(&reg, 10, None), Ok(vec![(10, None, Build::UseDefault, 0)]));
}

#[test]
fn struct_is_built_field_by_field() {
    let reg = registry();
    assert_eq!(
        summary(&reg, 11, None),
        Ok(vec![
            (11, None, Build::Struct, 2),
            (10, lab("x"), Build::UseDefault, 0),
            (10, lab("y"), Build::UseDefault, 0),
        ])
    );
}

#[test]
fn tuple_is_built_field_by_field() {
    let reg = registry();
    assert_eq!(
        summary(&reg, 16, None),
        Ok(vec![
            (16, None, Build::Tuple, 2),
            (10, None, Build::UseDefault, 0),
            (11, None, Build::Struct, 2),
            (10, lab("x"), Build::UseDefault, 0),
            (10, lab("y"), Build::UseDefault, 0),
        ])
    );
}

#[test]
fn enum_starts_at_first_variant() {
    let reg = registry();
    let plan = instantiation_plan(&reg, 12, None, DEPTH).unwrap().unwrap();
    assert_eq!(plan.len(), 1);
    assert_eq!(plan[0].build, Build::EnumUnit);
    assert_eq!(plan[0].variant, Some((0, "Dot".to_string())));
}

#[test]
fn enum_variant_is_chosen_by_index() {
    let reg = registry();
    assert_eq!(
        summary(&reg, 12, Some(1)),
        Ok(vec![
            (12, None, Build::EnumTuple, 2),
            (10, None, Build::UseDefault, 0),
            (10, None, Build::UseDefault, 0),
        ])
    );
    let plan = instantiation_plan(&reg, 12, Some(2), DEPTH).unwrap().unwrap();
    assert_eq!(plan[0].build, Build::EnumStruct);
    assert_eq!(plan[0].variant, Some((2, "Boxed".to_string())));
    assert_eq!(plan[1].label, lab("corner"));
    assert_eq!(plan[1].build, Build::Struct);
    assert_eq!(plan.len(), 4);
}

#[test]
fn variant_index_passes_over_the_default() {
    let reg = registry();
    assert_eq!(summary(&reg, 10, Some(0)), Err("ReflectDefault not implemented for u32".to_string()));
}

#[test]
fn bad_variant_index_is_reported() {
    let reg = registry();
    assert_eq!(summary(&reg, 12, Some(5)), Err("Invalid variant index 5 for Shape".to_string()));
}

#[test]
fn unregistered_type_is_reported() {
    let reg = registry();
    assert_eq!(summary(&reg, 99, None), Err("No Registration for type".to_string()));
}

#[test]
fn collection_without_default_is_reported() {
    let reg = registry();
    assert_eq!(summary(&reg, 13, None), Err("ReflectDefault not implemented for Vec<u32>".to_string()));
}

#[test]
fn field_of_unknown_type_is_reported() {
    let reg = registry();
    assert_eq!(summary(&reg, 14, None), Err("Nah".to_string()));
}

#[test]
fn plan_builds_the_requested_type() {
    let reg = registry();
    for (t, v) in [(10, None), (11, None), (12, Some(2)), (16, None)] {
        let plan = instantiation_plan(&reg, t, v, DEPTH).unwrap().unwrap();
        assert_eq!(plan[0].type_id, t);
        assert_eq!(plan[0].label, None);
    }
}

#[test]
fn parseable_fields() {
    let reg = registry();
    assert_eq!(field_is_parseable(10, &reg), Ok(()));
    assert_eq!(field_is_parseable(99, &reg), Err("Unregistered Type".to_string()));
    assert_eq!(field_is_parseable(15, &reg), Err("No Deserializer for Type".to_string()));
    let mut reg2 = registry();
    reg2.types[1].deserializable = true;
    assert_eq!(field_is_parseable(11, &reg2), Err("NonScalar values unsupported at this time".to_string()));
}

#[test]
fn radio_groups_have_at_most_four_columns() {
    assert_eq!(radio_columns(0), 0);
    assert_eq!(radio_columns(3), 3);
    assert_eq!(radio_columns(4), 4);
    assert_eq!(radio_columns(9), 4);
}

fn cap(value_type_id: u64) -> FieldAccessPath {
    FieldAccessPath { path: "shape".to_string(), value_type_id, component_type_id: 77, owning_entity: 5 }
}

#[test]
fn update_validation() {
    let ok = UpdateComponentFieldValue::new(1, Some(12), cap(12));
    assert_eq!(ok.validate(), Ok(()));
    let untyped = UpdateComponentFieldValue::new(1, None, cap(12));
    assert_eq!(untyped.validate(), Err("No represented type information".to_string()));
    let wrong = UpdateComponentFieldValue::new(1, Some(11), cap(12));
    assert_eq!(wrong.validate(), Err("Type Id provided does not match Type Id stored".to_string()));
    assert_eq!(wrong.ui_entity, 1);
    assert_eq!(wrong.component_ui_field_for.owning_entity, 5);
}

#[test]
fn picking_the_shown_variant_does_nothing() {
    let reg = registry();
    let meta = EnumMetadata::new(12, 1, "shape".to_string(), 40);
    assert!(enum_variant_switch(&reg, &meta, 1, 3, &cap(12), DEPTH).is_none());
}

#[test]
fn picking_another_variant_plans_a_fresh_value() {
    let reg = registry();
    let meta = EnumMetadata::new(12, 0, "shape".to_string(), 40);
    let switch = enum_variant_switch(&reg, &meta, 1, 3, &cap(12), DEPTH).unwrap();
    assert_eq!(switch.metadata.current_vidx, 1);
    assert_eq!(switch.metadata.path_string, "shape");
    assert_eq!(switch.metadata.associated_layout, 40);
    let (plan, ev) = switch.update.unwrap().unwrap();
    assert_eq!(plan.len(), 3);
    assert_eq!(plan[0].build, Build::EnumTuple);
    assert_eq!(ev.ui_entity, 3);
    assert_eq!(ev.new_value_type, Some(12));
    assert_eq!(ev.component_ui_field_for.path, "shape");
    assert_eq!(ev.validate(), Ok(()));
}

#[test]
fn picking_a_variant_for_a_mismatched_field_is_refused() {
    let reg = registry();
    let meta = EnumMetadata::new(12, 0, "shape".to_string(), 40);
    let switch = enum_variant_switch(&reg, &meta, 2, 3, &cap(11), DEPTH).unwrap();
    assert_eq!(switch.metadata.current_vidx, 2);
    assert_eq!(switch.update.unwrap().err(), Some("Type Id provided does not match Type Id stored".to_string()));
    let bad = enum_variant_switch(&reg, &meta, 8, 3, &cap(12), DEPTH).unwrap();
    assert_eq!(bad.update.unwrap().err(), Some("Invalid variant index 8 for Shape".to_string()));
}

/// 20 contains 21, which contains 20 again, and neither has a default.
fn looping_registry() -> TypeRegistry {
    TypeRegistry {
        types: vec![
            shape(20, "A", false, ReflectKind::Struct, vec![slot(Some("b"), Some(21))], vec![]),
            shape(21, "B", false, ReflectKind::Struct, vec![slot(Some("a"), Some(20))], vec![]),
        ],
    }
}

#[test]
fn plan_needs_enough_depth() {
    let reg = registry();
    assert!(instantiation_plan(&reg, 11, None, 0).is_none());
    assert!(instantiation_plan(&reg, 11, None, 1).is_some());
    assert!(instantiation_plan(&reg, 16, None, 1).is_none());
    assert!(instantiation_plan(&reg, 16, None, 2).is_some());
    let shallow = instantiation_plan(&reg, 10, None, 0).unwrap().unwrap();
    assert_eq!(shallow.len(), 1);
    assert_eq!(shallow[0].build, Build::UseDefault);
    assert!(instantiation_plan(&looping_registry(), 20, None, 50).is_none());
}
