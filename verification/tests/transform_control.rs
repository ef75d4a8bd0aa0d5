use bevy_tinkerbox_editor::transform_control::{ButtonMarkers, Dimensionality, TransformEditorFormControl, WidgetOp};

fn marker(global_show: bool, dimensions: bool, translate: bool, rotate: bool, scale: bool) -> ButtonMarkers {
    ButtonMarkers { global_show, dimensions, translate, rotate, scale }
}

#[test]
fn starts_hidden_in_2d() {
    let s = TransformEditorFormControl::default();
    assert!(!s.global_show_widget);
    assert_eq!(s.world_dimensions, Dimensionality::Is2D);
    assert_eq!(s.widget_op(), WidgetOp::Destroy);
    assert!(s.is_lit(marker(false, true, false, false, false)));
    assert!(!s.is_lit(marker(true, false, true, true, true)));
}

#[test]
fn gizmo_buttons_need_the_master_switch() {
    let mut s = TransformEditorFormControl::default();
    s.toggle_translation();
    assert!(!s.show_translation_gizmo);
    s.toggle_global_show();
    s.toggle_translation();
    assert!(s.show_translation_gizmo);
    assert_eq!(s.widget_op(), WidgetOp::Create);
    assert!(s.is_lit(marker(false, false, true, false, false)));
    s.toggle_rotation();
    s.toggle_scale();
    assert!(s.show_rotation_gizmo && s.show_scale_gizmo);
}

#[test]
fn master_switch_keeps_gizmo_choice() {
    let mut s = TransformEditorFormControl::default();
    s.toggle_global_show();
    s.toggle_translation();
    s.toggle_global_show();
    assert_eq!(s.widget_op(), WidgetOp::Destroy);
    assert!(s.show_translation_gizmo);
    assert!(!s.is_lit(marker(false, false, true, false, false)));
    s.toggle_global_show();
    assert_eq!(s.widget_op(), WidgetOp::Create);
}

#[test]
fn pressing_twice_restores() {
    let mut s = TransformEditorFormControl::default();
    s.toggle_global_show();
    let before = s;
    s.toggle_dimensions();
    assert_eq!(s.world_dimensions, Dimensionality::Is3D);
    assert!(!s.is_lit(marker(false, true, false, false, false)));
    s.toggle_dimensions();
    assert_eq!(s, before);
    s.toggle_scale();
    s.toggle_scale();
    assert_eq!(s, before);
}
