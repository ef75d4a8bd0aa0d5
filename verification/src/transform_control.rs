//! The state behind the transform editor's header buttons.
//!
//! A master switch shows or hides the transform gizmos; while it is on,
//! each of the translation, rotation and scale gizmos can be switched on its
//! own. A further button flips between 2D and 3D editing. The buttons light
//! up according to this state, and the translation widget exists in the
//! scene exactly while the master switch and the translation gizmo are on.
use vstd::prelude::*;

verus! {

/// Whether the edited world is two- or three-dimensional.
#[derive(Clone, Copy, Debug, PartialEq, Eq, Structural)]
pub enum Dimensionality {
    Is2D,
    Is3D,
}

/// The state of a transform editor's form.
#[derive(Clone, Copy, Debug, PartialEq, Eq, Structural)]
pub struct TransformEditorFormControl {
    pub global_show_widget: bool,
    pub world_dimensions: Dimensionality,
    pub show_scale_gizmo: bool,
    pub show_rotation_gizmo: bool,
    pub show_translation_gizmo: bool,
}

/// Which of the form's buttons an element is; an element may carry several
/// markers, and it lights up if any of them calls for it.
#[derive(Clone, Copy, Debug, PartialEq, Eq, Structural)]
pub struct ButtonMarkers {
    pub global_show: bool,
    pub dimensions: bool,
    pub translate: bool,
    pub rotate: bool,
    pub scale: bool,
}

/// What the scene should do with the translation widget.
#[derive(Clone, Copy, Debug, PartialEq, Eq, Structural)]
pub enum WidgetOp {
    Create,
    Destroy,
}

pub open spec fn initial_form() -> TransformEditorFormControl {
    TransformEditorFormControl {
        global_show_widget: false,
        world_dimensions: Dimensionality::Is2D,
        show_scale_gizmo: false,
        show_rotation_gizmo: false,
        show_translation_gizmo: false,
    }
}

pub open spec fn with_global_toggled(s: TransformEditorFormControl) -> TransformEditorFormControl {
    TransformEditorFormControl { global_show_widget: !s.global_show_widget, ..s }
}

pub open spec fn with_dimensions_toggled(s: TransformEditorFormControl) -> TransformEditorFormControl {
    TransformEditorFormControl {
        world_dimensions: match s.world_dimensions {
            Dimensionality::Is2D => Dimensionality::Is3D,
            Dimensionality::Is3D => Dimensionality::Is2D,
        },
        ..s
    }
}

pub open spec fn with_translation_toggled(s: TransformEditorFormControl) -> TransformEditorFormControl {
    if s.global_show_widget {
        TransformEditorFormControl { show_translation_gizmo: !s.show_translation_gizmo, ..s }
    } else {
        s
    }
}

pub open spec fn with_rotation_toggled(s: TransformEditorFormControl) -> TransformEditorFormControl {
    if s.global_show_widget {
        TransformEditorFormControl { show_rotation_gizmo: !s.show_rotation_gizmo, ..s }
    } else {
        s
    }
}

pub open spec fn with_scale_toggled(s: TransformEditorFormControl) -> TransformEditorFormControl {
    if s.global_show_widget {
        TransformEditorFormControl { show_scale_gizmo: !s.show_scale_gizmo, ..s }
    } else {
        s
    }
}

/// Whether a button with the given markers is lit in state `s`.
pub open spec fn lit(s: TransformEditorFormControl, m: ButtonMarkers) -> bool {
    ||| m.global_show && s.global_show_widget
    ||| m.dimensions && s.world_dimensions == Dimensionality::Is2D
    ||| m.translate && s.global_show_widget && s.show_translation_gizmo
    ||| m.rotate && s.global_show_widget && s.show_rotation_gizmo
    ||| m.scale && s.global_show_widget && s.show_scale_gizmo
}

/// Whether the translation widget should exist in state `s`.
pub open spec fn widget_shown(s: TransformEditorFormControl) -> bool {
    s.global_show_widget && s.show_translation_gizmo
}

impl Default for TransformEditorFormControl {
    fn default() -> (s: TransformEditorFormControl)
        ensures
            s == initial_form(),
    {
        TransformEditorFormControl {
            global_show_widget: false,
            world_dimensions: Dimensionality::Is2D,
            show_scale_gizmo: false,
            show_rotation_gizmo: false,
            show_translation_gizmo: false,
        }
    }
}

impl TransformEditorFormControl {
    /// The master switch.
    pub fn toggle_global_show(&mut self)
        ensures
            *final(self) == with_global_toggled(*old(self)),
    {
        self.global_show_widget = !self.global_show_widget;
    }

    /// Flips between 2D and 3D.
    pub fn toggle_dimensions(&mut self)
        ensures
            *final(self) == with_dimensions_toggled(*old(self)),
    {
        self.world_dimensions = match self.world_dimensions {
            Dimensionality::Is2D => Dimensionality::Is3D,
            Dimensionality::Is3D => Dimensionality::Is2D,
        };
    }

    /// Switches the translation gizmo, only while the master switch is on.
    pub fn toggle_translation(&mut self)
        ensures
            *final(self) == with_translation_toggled(*old(self)),
    {
        if self.global_show_widget {
            self.show_translation_gizmo = !self.show_translation_gizmo;
        }
    }

    /// Switches the rotation gizmo, only while the master switch is on.
    pub fn toggle_rotation(&mut self)
        ensures
            *final(self) == with_rotation_toggled(*old(self)),
    {
        if self.global_show_widget {
            self.show_rotation_gizmo = !self.show_rotation_gizmo;
        }
    }

    /// Switches the scale gizmo, only while the master switch is on.
    pub fn toggle_scale(&mut self)
        ensures
            *final(self) == with_scale_toggled(*old(self)),
    {
        if self.global_show_widget {
            self.show_scale_gizmo = !self.show_scale_gizmo;
        }
    }

    /// Whether a button with the given markers is lit.
    pub fn is_lit(&self, markers: ButtonMarkers) -> (b: bool)
        ensures
            b == lit(*self, markers),
    {
        if markers.global_show && self.global_show_widget {
            true
        } else if markers.dimensions && self.world_dimensions == Dimensionality::Is2D {
            true
        } else if markers.translate && self.global_show_widget && self.show_translation_gizmo {
            true
        } else if markers.rotate && self.global_show_widget && self.show_rotation_gizmo {
            true
        } else if markers.scale && self.global_show_widget && self.show_scale_gizmo {
            true
        } else {
            false
        }
    }

    /// What to do with the translation widget after a change of state.
    pub fn widget_op(&self) -> (op: WidgetOp)
        ensures
            (op == WidgetOp::Create) == widget_shown(*self),
    {
        if self.global_show_widget && self.show_translation_gizmo {
            WidgetOp::Create
        } else {
            WidgetOp::Destroy
        }
    }
}

/// Pressing any of the form's buttons twice in a row restores the state.
pub proof fn lemma_switches_undo_themselves(s: TransformEditorFormControl)
    ensures
        with_global_toggled(with_global_toggled(s)) == s,
        with_dimensions_toggled(with_dimensions_toggled(s)) == s,
        with_translation_toggled(with_translation_toggled(s)) == s,
        with_rotation_toggled(with_rotation_toggled(s)) == s,
        with_scale_toggled(with_scale_toggled(s)) == s,
{
}

/// While the master switch is off, the gizmo buttons change nothing, and
/// no gizmo button is lit and no widget is shown.
pub proof fn lemma_hidden_form_is_inert(s: TransformEditorFormControl, m: ButtonMarkers)
    requires
        !s.global_show_widget,
    ensures
        with_translation_toggled(s) == s,
        with_rotation_toggled(s) == s,
        with_scale_toggled(s) == s,
        !widget_shown(s),
        lit(s, m) == (m.dimensions && s.world_dimensions == Dimensionality::Is2D),
{
}

/// The master switch leaves the choice of gizmos alone: switching it off and
/// on again brings back the widget that was shown before.
pub proof fn lemma_master_switch_keeps_gizmo_choice(s: TransformEditorFormControl)
    ensures
        with_global_toggled(s).show_translation_gizmo == s.show_translation_gizmo,
        with_global_toggled(s).show_rotation_gizmo == s.show_rotation_gizmo,
        with_global_toggled(s).show_scale_gizmo == s.show_scale_gizmo,
        widget_shown(with_global_toggled(with_global_toggled(s))) == widget_shown(s),
{
}


/// While the master switch is on, each gizmo button is lit exactly when its
/// own gizmo is on, the master switch is lit, and the 2D/3D button is lit
/// exactly in 2D.
pub proof fn lemma_buttons_follow_their_own_state(s: TransformEditorFormControl)
    ensures
        s.global_show_widget ==> lit(
            s,
            ButtonMarkers { global_show: false, dimensions: false, translate: true, rotate: false, scale: false },
        ) == s.show_translation_gizmo,
        s.global_show_widget ==> lit(
            s,
            ButtonMarkers { global_show: false, dimensions: false, translate: false, rotate: true, scale: false },
        ) == s.show_rotation_gizmo,
        s.global_show_widget ==> lit(
            s,
            ButtonMarkers { global_show: false, dimensions: false, translate: false, rotate: false, scale: true },
        ) == s.show_scale_gizmo,
        lit(
            s,
            ButtonMarkers { global_show: true, dimensions: false, translate: false, rotate: false, scale: false },
        ) == s.global_show_widget,
        lit(
            s,
            ButtonMarkers { global_show: false, dimensions: true, translate: false, rotate: false, scale: false },
        ) == (s.world_dimensions == Dimensionality::Is2D),
{
}

} // verus!
