//! Decisions that the editor takes from reflected type information.
//!
//! The type registry is summarised as plain values: for each type, its id,
//! short name, whether it has a registered default value, its kind, and the
//! types of its fields or of its enum variants' fields. From these the
//! library plans how a fresh value of a type is built (the registered
//! default where there is one, otherwise field by field), and checks whether
//! a field can be edited as text.
use vstd::prelude::*;
use crate::text::{decimal, push_decimal};

verus! {

/// The kind of a reflected type.
#[derive(Clone, Copy, Debug, PartialEq, Eq, Structural)]
pub enum ReflectKind {
    Struct,
    TupleStruct,
    Tuple,
    List,
    Array,
    KeyedMap,
    UnorderedSet,
    Enum,
    Opaque,
}

/// A field of a struct, tuple or enum variant: its name where it has one,
/// and its type where the reflected information gives it.
pub struct FieldSlot {
    pub name: Option<String>,
    pub type_id: Option<u64>,
}

/// The kind of an enum variant.
#[derive(Clone, Copy, Debug, PartialEq, Eq, Structural)]
pub enum VariantKind {
    Struct,
    Tuple,
    Unit,
}

/// One variant of an enum.
pub struct VariantShape {
    pub name: String,
    pub kind: VariantKind,
    pub fields: Vec<FieldSlot>,
}

/// What the registry says of one type.
pub struct TypeShape {
    pub type_id: u64,
    pub short_name: String,
    /// Whether a default value is registered for the type.
    pub has_default: bool,
    /// Whether a deserializer is registered for the type.
    pub deserializable: bool,
    /// Whether the type registers its own editor for a whole value.
    pub field_ui: bool,
    /// Whether the type registers its own editor for each of its fields.
    pub per_field_ui: bool,
    pub kind: ReflectKind,
    /// The fields of a struct, tuple struct or tuple.
    pub fields: Vec<FieldSlot>,
    /// The variants of an enum.
    pub variants: Vec<VariantShape>,
}

/// The registered types; the first entry for an id is the one that counts.
pub struct TypeRegistry {
    pub types: Vec<TypeShape>,
}

/// How one value of the plan is built.
#[derive(Clone, Copy, Debug, PartialEq, Eq, Structural)]
pub enum Build {
    /// The type's registered default value.
    UseDefault,
    /// A struct from the values that follow, one per field.
    Struct,
    /// A tuple struct from the values that follow.
    TupleStruct,
    /// A tuple from the values that follow.
    Tuple,
    /// An enum in a struct variant, from the values that follow.
    EnumStruct,
    /// An enum in a tuple variant, from the values that follow.
    EnumTuple,
    /// An enum in a unit variant.
    EnumUnit,
}

/// One value of a construction plan. A plan lists the values in pre-order:
/// each composite value is followed by the plans of its fields.
pub struct Step {
    pub type_id: u64,
    /// The field name under which the value goes into its parent, if any.
    pub label: Option<String>,
    pub build: Build,
    /// How many field values follow directly below this one.
    pub field_count: usize,
    /// The index and name of the chosen variant, for enums.
    pub variant: Option<(usize, String)>,
}

/// A step as a mathematical value.
pub ghost struct StepModel {
    pub type_id: u64,
    pub label: Option<Seq<char>>,
    pub build: Build,
    pub field_count: nat,
    pub variant: Option<(nat, Seq<char>)>,
}

pub open spec fn opt_text(o: Option<String>) -> Option<Seq<char>> {
    match o {
        Some(s) => Some(s@),
        None => None,
    }
}

impl Step {
    pub open spec fn model(&self) -> StepModel {
        StepModel {
            type_id: self.type_id,
            label: opt_text(self.label),
            build: self.build,
            field_count: self.field_count as nat,
            variant: match self.variant {
                Some((i, n)) => Some((i as nat, n@)),
                None => None,
            },
        }
    }
}

pub open spec fn steps_model(v: Seq<Step>) -> Seq<StepModel> {
    v.map_values(|s: Step| s.model())
}

pub open spec fn shape_from(types: Seq<TypeShape>, t: u64, i: int) -> Option<TypeShape>
    decreases types.len() - i,
{
    if i < 0 || i >= types.len() {
        None
    } else if types[i].type_id == t {
        Some(types[i])
    } else {
        shape_from(types, t, i + 1)
    }
}

/// The registration that counts for `t`.
pub open spec fn shape_of(reg: TypeRegistry, t: u64) -> Option<TypeShape> {
    shape_from(reg.types@, t, 0)
}

/// The fields that building a value of `e` in variant `vindex` fills.
pub open spec fn slots_for(e: TypeShape, vindex: nat) -> Seq<FieldSlot> {
    match e.kind {
        ReflectKind::Struct | ReflectKind::TupleStruct | ReflectKind::Tuple => e.fields@,
        ReflectKind::Enum => if vindex < e.variants@.len() {
            e.variants@[vindex as int].fields@
        } else {
            Seq::empty()
        },
        _ => Seq::empty(),
    }
}

pub open spec fn step_model(
    t: u64,
    label: Option<Seq<char>>,
    build: Build,
    n: nat,
    variant: Option<(nat, Seq<char>)>,
) -> StepModel {
    StepModel { type_id: t, label, build, field_count: n, variant }
}

/// The outcome of planning: `None` when the given depth of nested field
/// values does not suffice to finish, otherwise the plan or the first error.
pub type Planned = Option<Result<Seq<StepModel>, Seq<char>>>;

/// The plan for a fresh value of `t` that goes in under `label`, descending
/// at most `fuel` levels of nested fields: the registered default where
/// there is one, otherwise built field by field.
pub open spec fn plan_value(reg: TypeRegistry, fuel: nat, t: u64, label: Option<Seq<char>>) -> Planned
    decreases fuel, 2nat,
{
    match shape_of(reg, t) {
        None => Some(Err("No Registration for type"@)),
        Some(e) => if e.has_default {
            Some(Ok(seq![step_model(t, label, Build::UseDefault, 0, None)]))
        } else {
            plan_shape(reg, fuel, e, label, 0)
        },
    }
}

/// The plan for building a value of `e`, in variant `vindex` if it is an
/// enum, field by field.
pub open spec fn plan_shape(
    reg: TypeRegistry,
    fuel: nat,
    e: TypeShape,
    label: Option<Seq<char>>,
    vindex: nat,
) -> Planned
    decreases fuel, 1nat,
{
    let t = e.type_id;
    let slots = slots_for(e, vindex);
    let composite = |b: Build, v: Option<(nat, Seq<char>)>|
        match plan_fields(reg, fuel, slots) {
            Some(Ok(fp)) => Some(Ok(seq![step_model(t, label, b, slots.len(), v)] + fp)),
            other => other,
        };
    match e.kind {
        ReflectKind::Struct => composite(Build::Struct, None),
        ReflectKind::TupleStruct => composite(Build::TupleStruct, None),
        ReflectKind::Tuple => composite(Build::Tuple, None),
        ReflectKind::Enum => if vindex >= e.variants@.len() {
            Some(Err("Invalid variant index "@ + decimal(vindex) + " for "@ + e.short_name@))
        } else {
            let v = e.variants@[vindex as int];
            match v.kind {
                VariantKind::Struct => composite(Build::EnumStruct, Some((vindex, v.name@))),
                VariantKind::Tuple => composite(Build::EnumTuple, Some((vindex, v.name@))),
                VariantKind::Unit => Some(
                    Ok(seq![step_model(t, label, Build::EnumUnit, 0, Some((vindex, v.name@)))]),
                ),
            }
        },
        _ => Some(Err("ReflectDefault not implemented for "@ + e.short_name@)),
    }
}

/// The plans of the values of `slots`, one after the other, each descending
/// one level; the first failure is the result.
pub open spec fn plan_fields(reg: TypeRegistry, fuel: nat, slots: Seq<FieldSlot>) -> Planned
    decreases fuel, 0nat, slots.len(),
{
    if slots.len() == 0 {
        Some(Ok(Seq::empty()))
    } else {
        match slots[0].type_id {
            None => Some(Err("Nah"@)),
            Some(f) => if fuel == 0 {
                None
            } else {
                match plan_value(reg, (fuel - 1) as nat, f, opt_text(slots[0].name)) {
                    Some(Ok(p)) => match plan_fields(reg, fuel, slots.drop_first()) {
                        Some(Ok(q)) => Some(Ok(p + q)),
                        other => other,
                    },
                    other => other,
                }
            },
        }
    }
}

/// The plan for a fresh value of `t` within `fuel` levels; with a variant
/// index, the type's default is passed over and that variant is built.
pub open spec fn plan_root_within(reg: TypeRegistry, fuel: nat, t: u64, variant: Option<usize>) -> Planned {
    match variant {
        None => plan_value(reg, fuel, t, None),
        Some(v) => match shape_of(reg, t) {
            None => Some(Err("No Registration for type"@)),
            Some(e) => plan_shape(reg, fuel, e, None, v as nat),
        },
    }
}

/// A depth that suffices for building a value of `t`.
pub open spec fn enough_fuel(reg: TypeRegistry, t: u64, variant: Option<usize>) -> nat {
    choose|fuel: nat| #[trigger] plan_root_within(reg, fuel, t, variant) is Some
}

/// The plan for a fresh value of `t`; with a variant index, the type's
/// default is passed over and that variant is built. Any depth that
/// suffices gives this same plan (`lemma_plan_depth_irrelevant`).
pub open spec fn plan_root(reg: TypeRegistry, t: u64, variant: Option<usize>) -> Result<
    Seq<StepModel>,
    Seq<char>,
> {
    plan_root_within(reg, enough_fuel(reg, t, variant), t, variant)->0
}

/// `r` is the executable outcome of planned result `p`.
pub open spec fn outcome_matches(r: Result<(), String>, before: Seq<Step>, after: Seq<Step>, p: Result<Seq<StepModel>, Seq<char>>) -> bool {
    match p {
        Ok(q) => r is Ok && steps_model(after) == steps_model(before) + q,
        Err(m) => r matches Err(e) && e@ == m,
    }
}

proof fn lemma_shape_from_id(types: Seq<TypeShape>, t: u64, i: int)
    requires
        shape_from(types, t, i) is Some,
    ensures
        shape_from(types, t, i)->0.type_id == t,
        exists|k: int| 0 <= k < types.len() && types[k] == shape_from(types, t, i)->0,
    decreases types.len() - i,
{
    if 0 <= i < types.len() && types[i].type_id != t {
        lemma_shape_from_id(types, t, i + 1);
    }
}

/// More depth does not change a finished plan.
proof fn lemma_value_depth(reg: TypeRegistry, n: nat, m: nat, t: u64, label: Option<Seq<char>>)
    requires
        n <= m,
        plan_value(reg, n, t, label) is Some,
    ensures
        plan_value(reg, m, t, label) == plan_value(reg, n, t, label),
    decreases n, 2nat,
{
    match shape_of(reg, t) {
        None => {},
        Some(e) => if !e.has_default {
            lemma_shape_depth(reg, n, m, e, label, 0);
        },
    }
}

proof fn lemma_shape_depth(reg: TypeRegistry, n: nat, m: nat, e: TypeShape, label: Option<Seq<char>>, vindex: nat)
    requires
        n <= m,
        plan_shape(reg, n, e, label, vindex) is Some,
    ensures
        plan_shape(reg, m, e, label, vindex) == plan_shape(reg, n, e, label, vindex),
    decreases n, 1nat,
{
    let slots = slots_for(e, vindex);
    match e.kind {
        ReflectKind::Struct | ReflectKind::TupleStruct | ReflectKind::Tuple => {
            lemma_fields_depth(reg, n, m, slots);
        },
        ReflectKind::Enum => if vindex < e.variants@.len()
            && !(e.variants@[vindex as int].kind is Unit) {
            lemma_fields_depth(reg, n, m, slots);
        },
        _ => {},
    }
}

proof fn lemma_fields_depth(reg: TypeRegistry, n: nat, m: nat, slots: Seq<FieldSlot>)
    requires
        n <= m,
        plan_fields(reg, n, slots) is Some,
    ensures
        plan_fields(reg, m, slots) == plan_fields(reg, n, slots),
    decreases n, 0nat, slots.len(),
{
    if slots.len() > 0 {
        if let Some(f) = slots[0].type_id {
            let lab = opt_text(slots[0].name);
            lemma_value_depth(reg, (n - 1) as nat, (m - 1) as nat, f, lab);
            if let Some(Ok(p)) = plan_value(reg, (n - 1) as nat, f, lab) {
                lemma_fields_depth(reg, n, m, slots.drop_first());
            }
        }
    }
}

/// Every depth at which building a value of `t` finishes gives the same
/// plan, so `plan_root` does not depend on the depth it was read at.
pub proof fn lemma_plan_depth_irrelevant(reg: TypeRegistry, t: u64, variant: Option<usize>, fuel: nat)
    requires
        plan_root_within(reg, fuel, t, variant) is Some,
    ensures
        plan_root(reg, t, variant) == plan_root_within(reg, fuel, t, variant)->0,
{
    let k = enough_fuel(reg, t, variant);
    assert(plan_root_within(reg, k, t, variant) is Some);
    let (lo, hi) = if k <= fuel { (k, fuel) } else { (fuel, k) };
    match variant {
        None => lemma_value_depth(reg, lo, hi, t, None),
        Some(v) => match shape_of(reg, t) {
            None => {},
            Some(e) => lemma_shape_depth(reg, lo, hi, e, None, v as nat),
        },
    }
}

impl TypeRegistry {
    pub(crate) fn find(&self, t: u64) -> (found: Option<usize>)
        ensures
            match found {
                Some(i) => i < self.types@.len() && shape_of(*self, t) == Some(self.types@[i as int])
                    && self.types@[i as int].type_id == t,
                None => shape_of(*self, t) is None,
            },
    {
        let mut i: usize = 0;
        while i < self.types.len()
            invariant
                i <= self.types@.len(),
                shape_from(self.types@, t, 0) == shape_from(self.types@, t, i as int),
            decreases self.types@.len() - i,
        {
            if self.types[i].type_id == t {
                return Some(i);
            }
            i = i + 1;
        }
        None
    }
}

fn copy_label(label: &Option<String>) -> (c: Option<String>)
    ensures
        opt_text(c) == opt_text(*label),
{
    match label {
        Some(s) => Some(s.clone()),
        None => None,
    }
}

/// `r` is the executable outcome of `p`: nothing where the depth did not
/// suffice, otherwise the plan's outcome.
pub open spec fn planned_outcome(r: Option<Result<(), String>>, before: Seq<Step>, after: Seq<Step>, p: Planned) -> bool {
    match p {
        None => r is None,
        Some(q) => r matches Some(x) && outcome_matches(x, before, after, q),
    }
}

fn plan_value_into(
    reg: &TypeRegistry,
    fuel: u64,
    t: u64,
    label: Option<String>,
    out: &mut Vec<Step>,
) -> (r: Option<Result<(), String>>)
    ensures
        planned_outcome(r, old(out)@, final(out)@, plan_value(*reg, fuel as nat, t, opt_text(label))),
    decreases fuel, 2nat,
{
    match reg.find(t) {
        None => Some(Err(String::from_str("No Registration for type"))),
        Some(i) => {
            if reg.types[i].has_default {
                let ghost before = out@;
                out.push(Step { type_id: t, label, build: Build::UseDefault, field_count: 0, variant: None });
                assert(steps_model(out@) =~= steps_model(before) + seq![
                    step_model(t, opt_text(label), Build::UseDefault, 0, None),
                ]);
                Some(Ok(()))
            } else {
                plan_shape_into(reg, fuel, i, label, 0, out)
            }
        },
    }
}

fn plan_shape_into(
    reg: &TypeRegistry,
    fuel: u64,
    i: usize,
    label: Option<String>,
    vindex: usize,
    out: &mut Vec<Step>,
) -> (r: Option<Result<(), String>>)
    requires
        i < reg.types@.len(),
    ensures
        planned_outcome(
            r,
            old(out)@,
            final(out)@,
            plan_shape(*reg, fuel as nat, reg.types@[i as int], opt_text(label), vindex as nat),
        ),
    decreases fuel, 1nat,
{
    let e = &reg.types[i];
    let t = e.type_id;
    let ghost lab = opt_text(label);
    let (build, slots, variant): (Build, &Vec<FieldSlot>, Option<(usize, String)>) = match e.kind {
        ReflectKind::Struct => (Build::Struct, &e.fields, None),
        ReflectKind::TupleStruct => (Build::TupleStruct, &e.fields, None),
        ReflectKind::Tuple => (Build::Tuple, &e.fields, None),
        ReflectKind::Enum => {
            if vindex >= e.variants.len() {
                let mut m = String::from_str("Invalid variant index ");
                push_decimal(&mut m, vindex);
                m.append(" for ");
                m.append(e.short_name.as_str());
                return Some(Err(m));
            }
            let v = &e.variants[vindex];
            match v.kind {
                VariantKind::Struct => (Build::EnumStruct, &v.fields, Some((vindex, v.name.clone()))),
                VariantKind::Tuple => (Build::EnumTuple, &v.fields, Some((vindex, v.name.clone()))),
                VariantKind::Unit => {
                    let ghost before = out@;
                    out.push(Step {
                        type_id: t,
                        label,
                        build: Build::EnumUnit,
                        field_count: 0,
                        variant: Some((vindex, v.name.clone())),
                    });
                    assert(steps_model(out@) =~= steps_model(before) + seq![
                        step_model(t, lab, Build::EnumUnit, 0, Some((vindex as nat, v.name@))),
                    ]);
                    return Some(Ok(()));
                },
            }
        },
        _ => {
            let mut m = String::from_str("ReflectDefault not implemented for ");
            m.append(e.short_name.as_str());
            return Some(Err(m));
        },
    };
    assert(slots@ == slots_for(*e, vindex as nat));
    let ghost before = out@;
    let n = slots.len();
    let step = Step { type_id: t, label, build, field_count: n, variant };
    let ghost head = step.model();
    out.push(step);
    assert(steps_model(out@) =~= steps_model(before) + seq![head]);
    let r = plan_fields_into(reg, fuel, slots, out);
    proof {
        match plan_fields(*reg, fuel as nat, slots@) {
            Some(Ok(fp)) => {
                assert(steps_model(out@) =~= steps_model(before) + (seq![head] + fp));
            },
            _ => {},
        }
    }
    r
}

fn plan_fields_into(
    reg: &TypeRegistry,
    fuel: u64,
    slots: &Vec<FieldSlot>,
    out: &mut Vec<Step>,
) -> (r: Option<Result<(), String>>)
    ensures
        planned_outcome(r, old(out)@, final(out)@, plan_fields(*reg, fuel as nat, slots@)),
    decreases fuel, 0nat,
{
    let ghost start = out@;
    let ghost whole = plan_fields(*reg, fuel as nat, slots@);
    let mut j: usize = 0;
    let ghost mut acc: Seq<StepModel> = Seq::empty();
    proof {
        assert(slots@.skip(0) =~= slots@);
        assert(steps_model(out@) =~= steps_model(start) + acc);
        match whole {
            Some(Ok(q)) => { assert(acc + q =~= q); },
            _ => {},
        }
    }
    while j < slots.len()
        invariant
            j <= slots@.len(),
            whole == plan_fields(*reg, fuel as nat, slots@),
            steps_model(out@) == steps_model(start) + acc,
            whole == match plan_fields(*reg, fuel as nat, slots@.skip(j as int)) {
                Some(Ok(q)) => Some(Ok(acc + q)),
                other => other,
            },
        decreases slots@.len() - j,
    {
        let slot = &slots[j];
        let ghost rest = slots@.skip(j as int);
        proof {
            assert(rest[0] == slots@[j as int]);
            assert(rest.drop_first() =~= slots@.skip(j + 1));
        }
        match slot.type_id {
            None => {
                return Some(Err(String::from_str("Nah")));
            },
            Some(f) => {
                if fuel == 0 {
                    return None;
                }
                let ghost lab = opt_text(slot.name);
                let r = plan_value_into(reg, fuel - 1, f, copy_label(&slot.name), out);
                match r {
                    None => {
                        return None;
                    },
                    Some(Err(m)) => {
                        return Some(Err(m));
                    },
                    Some(Ok(())) => {
                        proof {
                            let p = plan_value(*reg, (fuel - 1) as nat, f, lab)->0->Ok_0;
                            assert(steps_model(out@) =~= steps_model(start) + (acc + p));
                            match plan_fields(*reg, fuel as nat, slots@.skip(j + 1)) {
                                Some(Ok(q)) => { assert(acc + (p + q) =~= (acc + p) + q); },
                                _ => {},
                            }
                            acc = acc + p;
                        }
                    },
                }
            },
        }
        j = j + 1;
    }
    proof {
        assert(slots@.skip(slots@.len() as int) =~= Seq::<FieldSlot>::empty());
        assert(acc + Seq::<StepModel>::empty() =~= acc);
    }
    Some(Ok(()))
}

/// `r` is the executable form of planned result `p`.
pub open spec fn plan_matches(r: Option<Result<Vec<Step>, String>>, p: Planned) -> bool {
    match p {
        None => r is None,
        Some(Ok(q)) => r matches Some(Ok(v)) && steps_model(v@) == q,
        Some(Err(m)) => r matches Some(Err(e)) && e@ == m,
    }
}

/// How to build a fresh value of type `type_id`, descending at most `depth`
/// levels of nested fields: with no variant index, the registered default
/// where there is one and otherwise field by field; with a variant index,
/// the default is passed over and that variant of the enum is built. Fields
/// are filled with fresh values of their own types in turn, and the first
/// failure is the result. `None` where the depth does not suffice; with a
/// depth that suffices, the result is `plan_root`
/// (`lemma_plan_depth_irrelevant`).
pub fn instantiation_plan(reg: &TypeRegistry, type_id: u64, variant_index: Option<usize>, depth: u64) -> (r: Option<
    Result<Vec<Step>, String>,
>)
    ensures
        plan_matches(r, plan_root_within(*reg, depth as nat, type_id, variant_index)),
{
    let mut out: Vec<Step> = Vec::new();
    let r = match variant_index {
        None => plan_value_into(reg, depth, type_id, None, &mut out),
        Some(v) => match reg.find(type_id) {
            None => Some(Err(String::from_str("No Registration for type"))),
            Some(i) => plan_shape_into(reg, depth, i, None, v, &mut out),
        },
    };
    proof {
        assert(steps_model(Seq::<Step>::empty()) =~= Seq::<StepModel>::empty());
        match plan_root_within(*reg, depth as nat, type_id, variant_index) {
            Some(Ok(p)) => { assert(Seq::<StepModel>::empty() + p =~= p); },
            _ => {},
        }
    }
    match r {
        None => None,
        Some(Ok(())) => Some(Ok(out)),
        Some(Err(m)) => Some(Err(m)),
    }
}

/// Whether a field of type `t` can be edited as text, and why not.
pub open spec fn parse_verdict(reg: TypeRegistry, t: u64) -> Result<(), Seq<char>> {
    match shape_of(reg, t) {
        None => Err("Unregistered Type"@),
        Some(e) => if !e.deserializable {
            Err("No Deserializer for Type"@)
        } else if e.kind != ReflectKind::Opaque {
            Err("NonScalar values unsupported at this time"@)
        } else {
            Ok(())
        },
    }
}

/// A field can be edited as text when its type is registered, has a
/// deserializer and is opaque (a scalar as far as reflection goes).
pub fn field_is_parseable(value_id: u64, reg: &TypeRegistry) -> (r: Result<(), String>)
    ensures
        match parse_verdict(*reg, value_id) {
            Ok(_) => r is Ok,
            Err(m) => r matches Err(e) && e@ == m,
        },
{
    match reg.find(value_id) {
        None => Err(String::from_str("Unregistered Type")),
        Some(i) => {
            let e = &reg.types[i];
            if !e.deserializable {
                Err(String::from_str("No Deserializer for Type"))
            } else if e.kind != ReflectKind::Opaque {
                Err(String::from_str("NonScalar values unsupported at this time"))
            } else {
                Ok(())
            }
        },
    }
}

/// The radio group of an enum lays its variants out in at most four
/// columns.
pub fn radio_columns(num_variants: u16) -> (c: u16)
    ensures
        c == if num_variants < 4 { num_variants } else { 4 },
{
    if num_variants < 4 { num_variants } else { 4 }
}

/// Where an edited value lives: a path into a component of an entity, and
/// the type of the value there.
pub struct FieldAccessPath {
    pub path: String,
    pub value_type_id: u64,
    pub component_type_id: u64,
    pub owning_entity: u64,
}

impl FieldAccessPath {
    pub fn duplicate(&self) -> (c: FieldAccessPath)
        ensures
            c.path@ == self.path@,
            c.value_type_id == self.value_type_id,
            c.component_type_id == self.component_type_id,
            c.owning_entity == self.owning_entity,
    {
        FieldAccessPath {
            path: self.path.clone(),
            value_type_id: self.value_type_id,
            component_type_id: self.component_type_id,
            owning_entity: self.owning_entity,
        }
    }
}

/// A request to write a new value at a field: the type that the new value
/// says it represents, if it says one, and where it goes.
pub struct UpdateComponentFieldValue {
    pub ui_entity: u64,
    pub new_value_type: Option<u64>,
    pub component_ui_field_for: FieldAccessPath,
}

impl UpdateComponentFieldValue {
    pub fn new(ui_entity: u64, new_value_type: Option<u64>, component_ui_field_for: FieldAccessPath) -> (u: Self)
        ensures
            u.ui_entity == ui_entity,
            u.new_value_type == new_value_type,
            u.component_ui_field_for == component_ui_field_for,
    {
        UpdateComponentFieldValue { ui_entity, new_value_type, component_ui_field_for }
    }

    /// A request is accepted only when the new value says which type it
    /// represents, and that type is the one stored at the field.
    pub fn validate(&self) -> (r: Result<(), String>)
        ensures
            match self.new_value_type {
                None => r matches Err(e) && e@ == "No represented type information"@,
                Some(t) => if t == self.component_ui_field_for.value_type_id {
                    r is Ok
                } else {
                    r matches Err(e) && e@ == "Type Id provided does not match Type Id stored"@
                },
            },
    {
        match self.new_value_type {
            None => Err(String::from_str("No represented type information")),
            Some(t) => if t == self.component_ui_field_for.value_type_id {
                Ok(())
            } else {
                Err(String::from_str("Type Id provided does not match Type Id stored"))
            },
        }
    }
}

/// What the editor remembers of an enum field it shows: the enum's type,
/// the variant on display, the field's path and the layout that holds the
/// variant's fields.
pub struct EnumMetadata {
    pub enum_type_id: u64,
    pub current_vidx: usize,
    pub path_string: String,
    pub associated_layout: u64,
}

impl EnumMetadata {
    pub fn new(enum_type_id: u64, current_vidx: usize, path_string: String, associated_layout: u64) -> (m: Self)
        ensures
            m.enum_type_id == enum_type_id,
            m.current_vidx == current_vidx,
            m.path_string == path_string,
            m.associated_layout == associated_layout,
    {
        EnumMetadata { enum_type_id, current_vidx, path_string, associated_layout }
    }
}

/// The outcome of picking another variant in an enum's radio group: the
/// metadata now shows that variant, and the field gets a fresh value of it,
/// unless building one fails or the request is refused. `update` is `None`
/// where the depth given does not suffice to build the value.
pub struct VariantSwitch {
    pub metadata: EnumMetadata,
    pub update: Option<Result<(Vec<Step>, UpdateComponentFieldValue), String>>,
}

/// Picking variant `selected` of the enum that `metadata` describes: nothing
/// happens when it is already shown; otherwise the metadata moves to it and
/// a fresh value of that variant is planned, within `depth` levels of nested
/// fields, and checked against the field.
pub fn enum_variant_switch(
    reg: &TypeRegistry,
    metadata: &EnumMetadata,
    selected: usize,
    ui_entity: u64,
    cap: &FieldAccessPath,
    depth: u64,
) -> (r: Option<VariantSwitch>)
    ensures
        r is None <==> metadata.current_vidx == selected,
        r matches Some(s) ==> {
            &&& s.metadata.enum_type_id == metadata.enum_type_id
            &&& s.metadata.current_vidx == selected
            &&& s.metadata.path_string@ == metadata.path_string@
            &&& s.metadata.associated_layout == metadata.associated_layout
            &&& match plan_root_within(*reg, depth as nat, metadata.enum_type_id, Some(selected)) {
                None => s.update is None,
                Some(Err(m)) => s.update matches Some(Err(e)) && e@ == m,
                Some(Ok(p)) => if metadata.enum_type_id == cap.value_type_id {
                    s.update matches Some(Ok((plan, ev))) && steps_model(plan@) == p
                        && ev.ui_entity == ui_entity
                        && ev.new_value_type == Some(metadata.enum_type_id)
                        && ev.component_ui_field_for.path@ == cap.path@
                        && ev.component_ui_field_for.value_type_id == cap.value_type_id
                        && ev.component_ui_field_for.component_type_id == cap.component_type_id
                        && ev.component_ui_field_for.owning_entity == cap.owning_entity
                } else {
                    s.update matches Some(Err(e)) && e@ == "Type Id provided does not match Type Id stored"@
                },
            }
        },
{
    if metadata.current_vidx == selected {
        return None;
    }
    let new_meta = EnumMetadata::new(
        metadata.enum_type_id,
        selected,
        metadata.path_string.clone(),
        metadata.associated_layout,
    );
    let update = match instantiation_plan(reg, metadata.enum_type_id, Some(selected), depth) {
        None => None,
        Some(Err(m)) => Some(Err(m)),
        Some(Ok(plan)) => {
            let ev = UpdateComponentFieldValue::new(ui_entity, Some(metadata.enum_type_id), cap.duplicate());
            match ev.validate() {
                Ok(()) => Some(Ok((plan, ev))),
                Err(m) => Some(Err(m)),
            }
        },
    };
    Some(VariantSwitch { metadata: new_meta, update })
}

/// A fresh value is of the type that was asked for: a successful plan, at
/// any depth, starts with a step that builds a value of type `t` and goes in
/// under no field name.
pub proof fn lemma_plan_builds_requested_type(reg: TypeRegistry, fuel: nat, t: u64, variant: Option<usize>)
    requires
        plan_root_within(reg, fuel, t, variant) matches Some(Ok(_)),
    ensures
        plan_root_within(reg, fuel, t, variant)->0->Ok_0.len() > 0,
        plan_root_within(reg, fuel, t, variant)->0->Ok_0[0].type_id == t,
        plan_root_within(reg, fuel, t, variant)->0->Ok_0[0].label is None,
{
    match shape_of(reg, t) {
        None => {},
        Some(e) => {
            lemma_shape_from_id(reg.types@, t, 0);
        },
    }
}

/// A registered default always wins when no variant is asked for: at any
/// depth, the plan is that single default value.
pub proof fn lemma_registered_default_wins(reg: TypeRegistry, fuel: nat, t: u64)
    requires
        shape_of(reg, t) matches Some(e) && e.has_default,
    ensures
        plan_root_within(reg, fuel, t, None) == Some(Ok::<Seq<StepModel>, Seq<char>>(
            seq![step_model(t, None, Build::UseDefault, 0, None)],
        )),
{
}


/// A plan of an enum names the variant it builds: building variant `v` of
/// enum `t` starts with a step that records index `v` and the name of
/// variant `v`, for struct, tuple and unit variants alike.
pub proof fn lemma_enum_plan_names_its_variant(reg: TypeRegistry, fuel: nat, t: u64, v: usize)
    requires
        shape_of(reg, t) matches Some(e) && e.kind == ReflectKind::Enum,
        plan_root_within(reg, fuel, t, Some(v)) matches Some(Ok(_)),
    ensures
        v < shape_of(reg, t)->0.variants@.len(),
        plan_root_within(reg, fuel, t, Some(v))->0->Ok_0.len() > 0,
        plan_root_within(reg, fuel, t, Some(v))->0->Ok_0[0].variant == Some(
            (v as nat, shape_of(reg, t)->0.variants@[v as int].name@),
        ),
{
    let e = shape_of(reg, t)->0;
    let vi = e.variants@[v as int];
    if vi.kind != VariantKind::Unit {
        match plan_fields(reg, fuel, slots_for(e, v as nat)) {
            Some(Ok(fp)) => {
                let b = if vi.kind == VariantKind::Struct { Build::EnumStruct } else { Build::EnumTuple };
                let head = step_model(e.type_id, None, b, slots_for(e, v as nat).len(), Some((v as nat, vi.name@)));
                assert((seq![head] + fp)[0] == head);
            },
            _ => {},
        }
    }
}

/// An enum without a registered default is built in its first variant,
/// and the plan names that variant.
pub proof fn lemma_enum_plan_starts_at_first_variant(reg: TypeRegistry, fuel: nat, t: u64)
    requires
        shape_of(reg, t) matches Some(e) && e.kind == ReflectKind::Enum && !e.has_default,
        plan_root_within(reg, fuel, t, None) matches Some(Ok(_)),
    ensures
        0 < shape_of(reg, t)->0.variants@.len(),
        plan_root_within(reg, fuel, t, None)->0->Ok_0.len() > 0,
        plan_root_within(reg, fuel, t, None)->0->Ok_0[0].variant == Some(
            (0nat, shape_of(reg, t)->0.variants@[0].name@),
        ),
{
    assert(plan_root_within(reg, fuel, t, None) == plan_root_within(reg, fuel, t, Some(0usize)));
    lemma_enum_plan_names_its_variant(reg, fuel, t, 0usize);
}

} // verus!
