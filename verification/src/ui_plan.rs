//! The component view's walk over a reflected value.
//!
//! Showing a component starts at its type with an empty path and name. A
//! type with its own whole-value editor is shown by it. A struct or tuple
//! struct is shown as a header followed by one entry per field, in order;
//! each field is walked in turn, or, when the parent registers its own
//! per-field editor, handed to that editor. Enums, scalars and lists are
//! single entries (the fields of an enum's current variant are walked
//! separately, once the variant is known); other kinds are not shown.
//! A named field's path is `parent.name`, or just `name` at the top; a
//! positional field's path is `parent.index`, also at the top (where the
//! parent path is empty), except below the selected-entity root; below an
//! enum variant a field's path is always `path.key`. The walk is bounded by
//! a depth of nested fields; within it, the result is exact.
use vstd::prelude::*;
use crate::reflection::{opt_text, shape_of, FieldSlot, ReflectKind, TypeRegistry, VariantKind};
use crate::text::{decimal, decimal_string, struct_field_path, tuple_field_path, variant_field_path};

verus! {

/// How one entry of the component view is shown.
#[derive(Clone, Copy, Debug, PartialEq, Eq, Structural)]
pub enum UiNodeKind {
    /// The type's own editor for the whole value.
    FieldEditor,
    /// The parent's own editor, for this field.
    CustomField,
    /// A header, followed by the entries of the fields.
    Struct,
    /// A header, followed by the entries of the positional fields.
    TupleStruct,
    /// A radio group of the variants.
    Enum,
    /// A text input.
    Text,
    /// A list editor.
    List,
    /// Nothing is shown.
    Hidden,
}

/// One entry of the component view, in pre-order: a struct or tuple
/// struct entry is followed by the entries of its `field_count` fields.
pub struct UiNode {
    pub type_id: u64,
    pub path: String,
    pub name: String,
    pub kind: UiNodeKind,
    pub field_count: usize,
}

/// An entry as a mathematical value.
pub ghost struct UiNodeModel {
    pub type_id: u64,
    pub path: Seq<char>,
    pub name: Seq<char>,
    pub kind: UiNodeKind,
    pub field_count: nat,
}

impl UiNode {
    pub open spec fn model(&self) -> UiNodeModel {
        UiNodeModel {
            type_id: self.type_id,
            path: self.path@,
            name: self.name@,
            kind: self.kind,
            field_count: self.field_count as nat,
        }
    }
}

pub open spec fn nodes_model(v: Seq<UiNode>) -> Seq<UiNodeModel> {
    v.map_values(|n: UiNode| n.model())
}

pub open spec fn ui_node(t: u64, path: Seq<char>, name: Seq<char>, kind: UiNodeKind, n: nat) -> UiNodeModel {
    UiNodeModel { type_id: t, path, name, kind, field_count: n }
}

/// How a value of kind `k` is shown, when its type has no editor of its own.
pub open spec fn kind_node(k: ReflectKind) -> UiNodeKind {
    match k {
        ReflectKind::Struct => UiNodeKind::Struct,
        ReflectKind::TupleStruct => UiNodeKind::TupleStruct,
        ReflectKind::Enum => UiNodeKind::Enum,
        ReflectKind::Opaque => UiNodeKind::Text,
        ReflectKind::List => UiNodeKind::List,
        _ => UiNodeKind::Hidden,
    }
}

/// Where a field sits: among the named fields of a struct, the positional
/// fields of a tuple struct, or the fields of an enum variant.
#[derive(Clone, Copy, Debug, PartialEq, Eq, Structural)]
pub enum FieldPlace {
    Named,
    Positional,
    InVariant,
}

/// The key of the field at `index`: its index for a positional field,
/// otherwise its name, or its index when it has none.
pub open spec fn slot_key(slot: FieldSlot, index: nat, place: FieldPlace) -> Seq<char> {
    match (place, opt_text(slot.name)) {
        (FieldPlace::Positional, _) => decimal(index),
        (_, Some(n)) => n,
        (_, None) => decimal(index),
    }
}

/// The path of field `key` below `parent`.
pub open spec fn field_path(parent: Seq<char>, key: Seq<char>, place: FieldPlace) -> Seq<char> {
    match place {
        FieldPlace::Named => if parent.len() > 0 {
            parent + seq!['.'] + key
        } else {
            key
        },
        FieldPlace::Positional => if parent == "SelectedEntityUiRoot"@ {
            key
        } else {
            parent + seq!['.'] + key
        },
        FieldPlace::InVariant => parent + seq!['.'] + key,
    }
}

/// The entries for a value of `t` at `path` named `name`, walking at most
/// `fuel` levels of nested fields; `None` when that does not suffice or the
/// walk meets a type that is not registered or a field of unknown type.
pub open spec fn ui_value(reg: TypeRegistry, fuel: nat, t: u64, path: Seq<char>, name: Seq<char>) -> Option<
    Seq<UiNodeModel>,
>
    decreases fuel, 1nat,
{
    match shape_of(reg, t) {
        None => None,
        Some(e) => if e.field_ui {
            Some(seq![ui_node(t, path, name, UiNodeKind::FieldEditor, 0)])
        } else if e.kind == ReflectKind::Struct || e.kind == ReflectKind::TupleStruct {
            let place = if e.kind == ReflectKind::Struct {
                FieldPlace::Named
            } else {
                FieldPlace::Positional
            };
            match ui_fields(reg, fuel, e.fields@, path, place, e.per_field_ui, 0) {
                Some(c) => Some(seq![ui_node(t, path, name, kind_node(e.kind), e.fields@.len())] + c),
                None => None,
            }
        } else {
            Some(seq![ui_node(t, path, name, kind_node(e.kind), 0)])
        },
    }
}

/// The entries for the fields `slots`, the first of which has index
/// `index`, below `parent`; `custom` hands each field to the parent's own
/// per-field editor.
pub open spec fn ui_fields(
    reg: TypeRegistry,
    fuel: nat,
    slots: Seq<FieldSlot>,
    parent: Seq<char>,
    place: FieldPlace,
    custom: bool,
    index: nat,
) -> Option<Seq<UiNodeModel>>
    decreases fuel, 0nat, slots.len(),
{
    if slots.len() == 0 {
        Some(Seq::empty())
    } else {
        match slots[0].type_id {
            None => None,
            Some(f) => {
                let key = slot_key(slots[0], index, place);
                let p = field_path(parent, key, place);
                let first = if custom {
                    Some(seq![ui_node(f, p, key, UiNodeKind::CustomField, 0)])
                } else if fuel == 0 {
                    None
                } else {
                    ui_value(reg, (fuel - 1) as nat, f, p, key)
                };
                match first {
                    None => None,
                    Some(a) => match ui_fields(reg, fuel, slots.drop_first(), parent, place, custom, index + 1) {
                        Some(b) => Some(a + b),
                        None => None,
                    },
                }
            },
        }
    }
}

/// The entries that show a component of type `t`.
pub open spec fn component_ui(reg: TypeRegistry, t: u64) -> Seq<UiNodeModel> {
    let fuel = choose|fuel: nat| #[trigger] ui_value(reg, fuel, t, Seq::empty(), Seq::empty()) is Some;
    ui_value(reg, fuel, t, Seq::empty(), Seq::empty())->0
}

/// The entries for the fields of variant `vindex` of enum `t` at `path`.
pub open spec fn variant_ui(reg: TypeRegistry, fuel: nat, t: u64, vindex: nat, path: Seq<char>) -> Option<
    Seq<UiNodeModel>,
> {
    match shape_of(reg, t) {
        None => None,
        Some(e) => if e.kind != ReflectKind::Enum || vindex >= e.variants@.len() {
            None
        } else if e.variants@[vindex as int].kind == VariantKind::Unit {
            Some(Seq::empty())
        } else {
            ui_fields(reg, fuel, e.variants@[vindex as int].fields@, path, FieldPlace::InVariant, false, 0)
        },
    }
}

/// `r` holds the entries that `planned` describes, or nothing where it
/// describes none.
pub open spec fn entries_match(r: Option<Vec<UiNode>>, planned: Option<Seq<UiNodeModel>>) -> bool {
    match planned {
        None => r is None,
        Some(m) => r matches Some(v) && nodes_model(v@) == m,
    }
}

fn ui_value_into(
    reg: &TypeRegistry,
    fuel: u64,
    t: u64,
    path: String,
    name: String,
    out: &mut Vec<UiNode>,
) -> (ok: bool)
    ensures
        ok == ui_value(*reg, fuel as nat, t, path@, name@) is Some,
        ok ==> nodes_model(final(out)@) == nodes_model(old(out)@) + ui_value(
            *reg,
            fuel as nat,
            t,
            path@,
            name@,
        )->0,
    decreases fuel, 1nat,
{
    let i = match reg.find(t) {
        Some(i) => i,
        None => {
            return false;
        },
    };
    let e = &reg.types[i];
    let ghost before = out@;
    if e.field_ui {
        out.push(UiNode { type_id: t, path, name, kind: UiNodeKind::FieldEditor, field_count: 0 });
        assert(nodes_model(out@) =~= nodes_model(before) + seq![
            ui_node(t, path@, name@, UiNodeKind::FieldEditor, 0),
        ]);
        return true;
    }
    let kind = match e.kind {
        ReflectKind::Struct => UiNodeKind::Struct,
        ReflectKind::TupleStruct => UiNodeKind::TupleStruct,
        ReflectKind::Enum => UiNodeKind::Enum,
        ReflectKind::Opaque => UiNodeKind::Text,
        ReflectKind::List => UiNodeKind::List,
        _ => UiNodeKind::Hidden,
    };
    if kind == UiNodeKind::Struct || kind == UiNodeKind::TupleStruct {
        let place = if kind == UiNodeKind::Struct {
            FieldPlace::Named
        } else {
            FieldPlace::Positional
        };
        let n = e.fields.len();
        let ghost head = ui_node(t, path@, name@, kind, n as nat);
        let ghost p = path@;
        out.push(UiNode { type_id: t, path: path.clone(), name, kind, field_count: n });
        assert(nodes_model(out@) =~= nodes_model(before) + seq![head]);
        let ok = ui_fields_into(reg, fuel, &e.fields, path.as_str(), place, e.per_field_ui, out);
        proof {
            if ok {
                let c = ui_fields(*reg, fuel as nat, e.fields@, p, place, e.per_field_ui, 0)->0;
                assert(nodes_model(out@) =~= nodes_model(before) + (seq![head] + c));
            }
        }
        ok
    } else {
        out.push(UiNode { type_id: t, path, name, kind, field_count: 0 });
        assert(nodes_model(out@) =~= nodes_model(before) + seq![
            ui_node(t, path@, name@, kind, 0),
        ]);
        true
    }
}

fn ui_fields_into(
    reg: &TypeRegistry,
    fuel: u64,
    slots: &Vec<FieldSlot>,
    parent: &str,
    place: FieldPlace,
    custom: bool,
    out: &mut Vec<UiNode>,
) -> (ok: bool)
    ensures
        ok == ui_fields(*reg, fuel as nat, slots@, parent@, place, custom, 0) is Some,
        ok ==> nodes_model(final(out)@) == nodes_model(old(out)@) + ui_fields(
            *reg,
            fuel as nat,
            slots@,
            parent@,
            place,
            custom,
            0,
        )->0,
    decreases fuel, 0nat,
{
    let ghost start = out@;
    let ghost whole = ui_fields(*reg, fuel as nat, slots@, parent@, place, custom, 0);
    let ghost mut acc: Seq<UiNodeModel> = Seq::empty();
    let mut j: usize = 0;
    proof {
        assert(slots@.skip(0) =~= slots@);
        assert(nodes_model(out@) =~= nodes_model(start) + acc);
        match whole {
            Some(w) => { assert(acc + w =~= w); },
            None => {},
        }
    }
    while j < slots.len()
        invariant
            j <= slots@.len(),
            whole == ui_fields(*reg, fuel as nat, slots@, parent@, place, custom, 0),
            nodes_model(out@) == nodes_model(start) + acc,
            whole == match ui_fields(*reg, fuel as nat, slots@.skip(j as int), parent@, place, custom, j as nat) {
                Some(b) => Some(acc + b),
                None => None,
            },
        decreases slots@.len() - j,
    {
        let slot = &slots[j];
        let ghost rest = slots@.skip(j as int);
        proof {
            assert(rest[0] == slots@[j as int]);
            assert(rest.drop_first() =~= slots@.skip(j + 1));
        }
        let f = match slot.type_id {
            Some(f) => f,
            None => {
                return false;
            },
        };
        let key = match (place, &slot.name) {
            (FieldPlace::Positional, _) => decimal_string(j),
            (_, Some(n)) => n.clone(),
            (_, None) => decimal_string(j),
        };
        assert(key@ == slot_key(*slot, j as nat, place));
        let path = match place {
            FieldPlace::Named => struct_field_path(parent, key.as_str()),
            FieldPlace::Positional => tuple_field_path(parent, j),
            FieldPlace::InVariant => variant_field_path(parent, key.as_str()),
        };
        assert(path@ == field_path(parent@, key@, place));
        let ghost before = out@;
        let ghost kk = key@;
        let ghost pp = path@;
        if custom {
            out.push(UiNode { type_id: f, path, name: key, kind: UiNodeKind::CustomField, field_count: 0 });
            assert(nodes_model(out@) =~= nodes_model(before) + seq![
                ui_node(f, pp, kk, UiNodeKind::CustomField, 0),
            ]);
            proof {
                let a = seq![ui_node(f, pp, kk, UiNodeKind::CustomField, 0)];
                match ui_fields(*reg, fuel as nat, slots@.skip(j + 1), parent@, place, custom, (j + 1) as nat) {
                    Some(b) => { assert(acc + (a + b) =~= (acc + a) + b); },
                    None => {},
                }
                assert(nodes_model(out@) =~= nodes_model(start) + (acc + a));
                acc = acc + a;
            }
        } else {
            if fuel == 0 {
                return false;
            }
            let ok = ui_value_into(reg, fuel - 1, f, path, key, out);
            if !ok {
                return false;
            }
            proof {
                let a = ui_value(*reg, (fuel - 1) as nat, f, pp, kk)->0;
                match ui_fields(*reg, fuel as nat, slots@.skip(j + 1), parent@, place, custom, (j + 1) as nat) {
                    Some(b) => { assert(acc + (a + b) =~= (acc + a) + b); },
                    None => {},
                }
                assert(nodes_model(out@) =~= nodes_model(start) + (acc + a));
                acc = acc + a;
            }
        }
        j = j + 1;
    }
    proof {
        assert(slots@.skip(slots@.len() as int) =~= Seq::<FieldSlot>::empty());
        assert(acc + Seq::<UiNodeModel>::empty() =~= acc);
    }
    true
}

/// The entries that show a component of type `component`, in pre-order,
/// walking at most `depth` levels of nested fields. `None` where the view
/// would meet an unregistered type or a field of unknown type, or where the
/// depth does not suffice; with a depth that suffices, the result is
/// `component_ui` (`lemma_ui_depth_irrelevant`).
pub fn component_ui_plan(reg: &TypeRegistry, component: u64, depth: u64) -> (nodes: Option<Vec<UiNode>>)
    ensures
        entries_match(nodes, ui_value(*reg, depth as nat, component, Seq::empty(), Seq::empty())),
{
    let mut out: Vec<UiNode> = Vec::new();
    let path = String::new();
    let name = String::new();
    assert(path@ =~= Seq::<char>::empty());
    assert(name@ =~= Seq::<char>::empty());
    let ok = ui_value_into(reg, depth, component, path, name, &mut out);
    if !ok {
        return None;
    }
    proof {
        let m = ui_value(*reg, depth as nat, component, Seq::empty(), Seq::empty())->0;
        assert(nodes_model(Seq::<UiNode>::empty()) =~= Seq::<UiNodeModel>::empty());
        assert(Seq::<UiNodeModel>::empty() + m =~= m);
    }
    Some(out)
}

/// The entries that show the fields of variant `vindex` of the enum of type
/// `enum_type` at `path`, once that variant is the one on display, walking
/// at most `depth` levels of nested fields. `None` where `enum_type` is no
/// registered enum with such a variant, where a field's type is unknown or
/// unregistered, or where the depth does not suffice.
pub fn variant_ui_plan(reg: &TypeRegistry, enum_type: u64, vindex: usize, path: &str, depth: u64) -> (nodes: Option<
    Vec<UiNode>,
>)
    ensures
        entries_match(nodes, variant_ui(*reg, depth as nat, enum_type, vindex as nat, path@)),
{
    let mut out: Vec<UiNode> = Vec::new();
    assert(nodes_model(Seq::<UiNode>::empty()) =~= Seq::<UiNodeModel>::empty());
    let i = match reg.find(enum_type) {
        Some(i) => i,
        None => {
            return None;
        },
    };
    let e = &reg.types[i];
    if e.kind != ReflectKind::Enum || vindex >= e.variants.len() {
        return None;
    }
    let v = &e.variants[vindex];
    if v.kind == VariantKind::Unit {
        return Some(out);
    }
    let ok = ui_fields_into(reg, depth, &v.fields, path, FieldPlace::InVariant, false, &mut out);
    if !ok {
        return None;
    }
    proof {
        let c = variant_ui(*reg, depth as nat, enum_type, vindex as nat, path@)->0;
        assert(Seq::<UiNodeModel>::empty() + c =~= c);
    }
    Some(out)
}

/// A type's own editor for a whole value always wins: the value is one
/// entry, shown by that editor, whatever its kind.
pub proof fn lemma_own_editor_wins(reg: TypeRegistry, fuel: nat, t: u64, path: Seq<char>, name: Seq<char>)
    requires
        shape_of(reg, t) matches Some(e) && e.field_ui,
    ensures
        ui_value(reg, fuel, t, path, name) == Some(seq![ui_node(t, path, name, UiNodeKind::FieldEditor, 0)]),
{
}

/// Maps, sets, arrays and bare tuples get no generated editor: such a value
/// is a single hidden entry unless its type brings its own editor.
pub proof fn lemma_collections_and_tuples_hidden(reg: TypeRegistry, fuel: nat, t: u64, path: Seq<char>, name: Seq<char>)
    requires
        shape_of(reg, t) matches Some(e) && !e.field_ui && (e.kind == ReflectKind::KeyedMap
            || e.kind == ReflectKind::UnorderedSet || e.kind == ReflectKind::Array
            || e.kind == ReflectKind::Tuple),
    ensures
        ui_value(reg, fuel, t, path, name) == Some(seq![ui_node(t, path, name, UiNodeKind::Hidden, 0)]),
{
}

/// More depth does not change a finished walk.
proof fn lemma_ui_value_depth(reg: TypeRegistry, n: nat, m: nat, t: u64, path: Seq<char>, name: Seq<char>)
    requires
        n <= m,
        ui_value(reg, n, t, path, name) is Some,
    ensures
        ui_value(reg, m, t, path, name) == ui_value(reg, n, t, path, name),
    decreases n, 1nat,
{
    match shape_of(reg, t) {
        None => {},
        Some(e) => if !e.field_ui && (e.kind == ReflectKind::Struct || e.kind == ReflectKind::TupleStruct) {
            let place = if e.kind == ReflectKind::Struct {
                FieldPlace::Named
            } else {
                FieldPlace::Positional
            };
            lemma_ui_fields_depth(reg, n, m, e.fields@, path, place, e.per_field_ui, 0);
        },
    }
}

proof fn lemma_ui_fields_depth(
    reg: TypeRegistry,
    n: nat,
    m: nat,
    slots: Seq<FieldSlot>,
    parent: Seq<char>,
    place: FieldPlace,
    custom: bool,
    index: nat,
)
    requires
        n <= m,
        ui_fields(reg, n, slots, parent, place, custom, index) is Some,
    ensures
        ui_fields(reg, m, slots, parent, place, custom, index) == ui_fields(
            reg,
            n,
            slots,
            parent,
            place,
            custom,
            index,
        ),
    decreases n, 0nat, slots.len(),
{
    if slots.len() > 0 {
        if let Some(f) = slots[0].type_id {
            let key = slot_key(slots[0], index, place);
            let p = field_path(parent, key, place);
            if !custom {
                lemma_ui_value_depth(reg, (n - 1) as nat, (m - 1) as nat, f, p, key);
            }
            lemma_ui_fields_depth(reg, n, m, slots.drop_first(), parent, place, custom, index + 1);
        }
    }
}

/// Every depth at which the walk over a component finishes gives the same
/// entries, so `component_ui` does not depend on the depth it was read at;
/// likewise for the fields of an enum variant.
pub proof fn lemma_ui_depth_irrelevant(reg: TypeRegistry, t: u64, vindex: nat, path: Seq<char>, n: nat, m: nat)
    ensures
        ui_value(reg, n, t, Seq::empty(), Seq::empty()) is Some ==> component_ui(reg, t) == ui_value(
            reg,
            n,
            t,
            Seq::empty(),
            Seq::empty(),
        )->0,
        variant_ui(reg, n, t, vindex, path) is Some && variant_ui(reg, m, t, vindex, path) is Some
            ==> variant_ui(reg, n, t, vindex, path) == variant_ui(reg, m, t, vindex, path),
{
    if ui_value(reg, n, t, Seq::empty(), Seq::empty()) is Some {
        let k = choose|fuel: nat| #[trigger] ui_value(reg, fuel, t, Seq::empty(), Seq::empty()) is Some;
        assert(ui_value(reg, k, t, Seq::empty(), Seq::empty()) is Some);
        if k <= n {
            lemma_ui_value_depth(reg, k, n, t, Seq::empty(), Seq::empty());
        } else {
            lemma_ui_value_depth(reg, n, k, t, Seq::empty(), Seq::empty());
        }
    }
    if variant_ui(reg, n, t, vindex, path) is Some && variant_ui(reg, m, t, vindex, path) is Some {
        match shape_of(reg, t) {
            None => {},
            Some(e) => if e.kind == ReflectKind::Enum && vindex < e.variants@.len()
                && e.variants@[vindex as int].kind != VariantKind::Unit {
                let fs = e.variants@[vindex as int].fields@;
                if n <= m {
                    lemma_ui_fields_depth(reg, n, m, fs, path, FieldPlace::InVariant, false, 0);
                } else {
                    lemma_ui_fields_depth(reg, m, n, fs, path, FieldPlace::InVariant, false, 0);
                }
            },
        }
    }
}


/// A struct or tuple struct without an editor of its own is shown as a
/// header that names it, followed by its fields, however many (none
/// included): its first entry is a struct (or tuple struct) entry at its
/// path and name, counting all its fields. A struct without fields is always
/// shown that way.
pub proof fn lemma_structs_show_header_and_fields(
    reg: TypeRegistry,
    fuel: nat,
    t: u64,
    path: Seq<char>,
    name: Seq<char>,
)
    requires
        shape_of(reg, t) matches Some(e) && !e.field_ui && (e.kind == ReflectKind::Struct || e.kind
            == ReflectKind::TupleStruct),
    ensures
        shape_of(reg, t)->0.fields@.len() == 0 ==> ui_value(reg, fuel, t, path, name) is Some,
        ui_value(reg, fuel, t, path, name) matches Some(m) ==> {
            &&& m.len() > 0
            &&& m[0].type_id == t
            &&& m[0].path == path
            &&& m[0].name == name
            &&& m[0].kind == (if shape_of(reg, t)->0.kind == ReflectKind::Struct {
                UiNodeKind::Struct
            } else {
                UiNodeKind::TupleStruct
            })
            &&& m[0].field_count == shape_of(reg, t)->0.fields@.len()
        },
{
    let e = shape_of(reg, t)->0;
    let place = if e.kind == ReflectKind::Struct {
        FieldPlace::Named
    } else {
        FieldPlace::Positional
    };
    match ui_fields(reg, fuel, e.fields@, path, place, e.per_field_ui, 0) {
        Some(c) => {
            let head = ui_node(t, path, name, kind_node(e.kind), e.fields@.len());
            assert((seq![head] + c)[0] == head);
        },
        None => {},
    }
}

} // verus!
