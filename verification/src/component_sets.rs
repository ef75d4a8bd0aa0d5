//! Which components an entity's editor UI shows.
//!
//! An entity UI distinguishes the components a user chose to edit (the
//! desired set) from those that are present only because a chosen component
//! requires them (the ride-along set, shown as view-only entries). Component
//! and type ids are plain integers here; the world's required-component
//! relation and the type registry are summarised in a [`TypeCatalog`].
use vstd::prelude::*;
use bevy::platform::collections::HashSet;
use crate::collections::{
    set_ids, id_set_new, id_set_contains, id_set_insert, id_set_remove, id_set_items, id_set_difference,
    id_set_union, id_set_from,
};

verus! {

/// The ids that a vector holds.
pub open spec fn ids(v: Seq<u64>) -> Set<u64> {
    v.to_set()
}

/// The ids of a prefix grow by one element at a time.
proof fn lemma_take_next(s: Seq<u64>, i: int)
    requires
        0 <= i < s.len(),
    ensures
        ids(s.take(i + 1)) == ids(s.take(i)).insert(s[i]),
{
    assert(s.take(i + 1) =~= s.take(i).push(s[i]));
    s.take(i).lemma_push_to_set_commute(s[i]);
}

/// What the editor knows about one component type.
pub struct ComponentTypeInfo {
    pub type_id: u64,
    /// Whether the type registry holds a registration for the type.
    pub registered: bool,
    /// The components that the world requires alongside this one.
    pub required: Vec<u64>,
}

/// The known component types; the first entry for an id is the one that counts.
pub struct TypeCatalog {
    pub entries: Vec<ComponentTypeInfo>,
}

/// The first entry for `t` at or after index `i`.
pub open spec fn entry_from(entries: Seq<ComponentTypeInfo>, t: u64, i: int) -> Option<
    ComponentTypeInfo,
>
    decreases entries.len() - i,
{
    if i < 0 || i >= entries.len() {
        None
    } else if entries[i].type_id == t {
        Some(entries[i])
    } else {
        entry_from(entries, t, i + 1)
    }
}

pub open spec fn catalog_entry(cat: TypeCatalog, t: u64) -> Option<ComponentTypeInfo> {
    entry_from(cat.entries@, t, 0)
}

/// The components required by `t`; none for an unknown type.
pub open spec fn required_of(cat: TypeCatalog, t: u64) -> Seq<u64> {
    match catalog_entry(cat, t) {
        Some(e) => e.required@,
        None => Seq::empty(),
    }
}

/// Whether the type registry knows `t`.
pub open spec fn is_registered(cat: TypeCatalog, t: u64) -> bool {
    match catalog_entry(cat, t) {
        Some(e) => e.registered,
        None => false,
    }
}

/// The registered components among `reqs`.
pub open spec fn registered_among(cat: TypeCatalog, reqs: Seq<u64>) -> Set<u64> {
    Set::new(|r: u64| reqs.contains(r) && is_registered(cat, r))
}

/// Everything required by some component of `desired`.
pub open spec fn live_requirements(cat: TypeCatalog, desired: Set<u64>) -> Set<u64> {
    Set::new(|x: u64| exists|d: u64| desired.contains(d) && #[trigger] required_of(cat, d).contains(x))
}

/// The requirements, in order, that get a new view-only entry: registered,
/// not excluded, and not already met earlier in the list.
pub open spec fn fresh_views(cat: TypeCatalog, reqs: Seq<u64>, excluded: Set<u64>) -> Seq<u64>
    decreases reqs.len(),
{
    if reqs.len() == 0 {
        Seq::empty()
    } else {
        let r = reqs[0];
        if !is_registered(cat, r) {
            fresh_views(cat, reqs.drop_first(), excluded)
        } else if excluded.contains(r) {
            fresh_views(cat, reqs.drop_first(), excluded)
        } else {
            seq![r] + fresh_views(cat, reqs.drop_first(), excluded.insert(r))
        }
    }
}

impl TypeCatalog {
    /// The index of the entry that counts for `t`.
    pub fn find(&self, t: u64) -> (found: Option<usize>)
        ensures
            match found {
                Some(i) => i < self.entries@.len() && catalog_entry(*self, t) == Some(
                    self.entries@[i as int],
                ),
                None => catalog_entry(*self, t) is None,
            },
    {
        let mut i: usize = 0;
        while i < self.entries.len()
            invariant
                i <= self.entries@.len(),
                entry_from(self.entries@, t, 0) == entry_from(self.entries@, t, i as int),
            decreases self.entries@.len() - i,
        {
            if self.entries[i].type_id == t {
                return Some(i);
            }
            i = i + 1;
        }
        None
    }

    /// Whether the type registry knows `t`.
    pub fn registered(&self, t: u64) -> (b: bool)
        ensures
            b == is_registered(*self, t),
    {
        match self.find(t) {
            Some(i) => self.entries[i].registered,
            None => false,
        }
    }

    /// The components required by `t`, as the world lists them.
    pub fn requirements(&self, t: u64) -> (reqs: Vec<u64>)
        ensures
            reqs@ == required_of(*self, t),
    {
        let mut reqs: Vec<u64> = Vec::new();
        if let Some(i) = self.find(t) {
            let src = &self.entries[i].required;
            let mut j: usize = 0;
            while j < src.len()
                invariant
                    j <= src@.len(),
                    reqs@ == src@.take(j as int),
                decreases src@.len() - j,
            {
                reqs.push(src[j]);
                assert(reqs@ =~= src@.take(j + 1));
                j = j + 1;
            }
            assert(src@.take(src@.len() as int) =~= src@);
        }
        reqs
    }
}

/// The editor UI state of one scene entity.
pub struct EntityUiRoot {
    /// The scene entity that this UI edits.
    pub world_target: u64,
    pub desired_component_set: HashSet<u64>,
    pub ride_along_components: HashSet<u64>,
}

/// What selecting a component asks of the UI.
pub struct SelectionEffects {
    /// Whether the component was taken into the desired set.
    pub accepted: bool,
    /// Whether the component was shown as ride-along before, so that its
    /// view-only entries go away.
    pub released_ride_along: bool,
    /// The required components that now need a view-only entry, in order.
    pub new_ride_along_views: Vec<u64>,
}

/// What removing a component asks of the UI.
pub struct RemovalEffects {
    /// The view-only entries (UI entities) to despawn, in the order given.
    pub despawn_views: Vec<u64>,
    /// Whether the removed component is still required by another one, so
    /// that it stays on the entity and gets a view-only entry.
    pub keep_view_of_removed: bool,
    /// The components to take off the scene entity.
    pub strip_components: Vec<u64>,
}

/// Everything that the components of `desired` require.
pub fn live_requirements_of(desired: &Vec<u64>, catalog: &TypeCatalog) -> (live: HashSet<u64>)
    ensures
        set_ids(live) == live_requirements(*catalog, ids(desired@)),
{
    let mut live = id_set_new();
    let mut i: usize = 0;
    proof {
        assert(ids(desired@.take(0)) =~= Set::<u64>::empty());
        assert(live_requirements(*catalog, Set::<u64>::empty()) =~= Set::<u64>::empty());
    }
    while i < desired.len()
        invariant
            i <= desired@.len(),
            set_ids(live) == live_requirements(*catalog, ids(desired@.take(i as int))),
        decreases desired@.len() - i,
    {
        let reqs = id_set_from(catalog.requirements(desired[i]));
        let ghost before = set_ids(live);
        live = id_set_union(&live, &reqs);
        proof {
            lemma_take_next(desired@, i as int);
            let d = desired@[i as int];
            let prev = ids(desired@.take(i as int));
            assert forall|x: u64| #[trigger] set_ids(live).contains(x) == live_requirements(*catalog, prev.insert(d)).contains(x) by {
                if set_ids(reqs).contains(x) {
                    assert(ids(required_of(*catalog, d)).contains(x));
                    assert(required_of(*catalog, d).contains(x));
                    assert(prev.insert(d).contains(d));
                }
                if live_requirements(*catalog, prev.insert(d)).contains(x) {
                    let e = choose|e: u64| prev.insert(d).contains(e) && #[trigger] required_of(*catalog, e).contains(x);
                    if e == d {
                        assert(ids(required_of(*catalog, d)).contains(x));
                    } else {
                        assert(prev.contains(e));
                        assert(before.contains(x));
                    }
                }
                if before.contains(x) {
                    let e = choose|e: u64| prev.contains(e) && #[trigger] required_of(*catalog, e).contains(x);
                    assert(prev.insert(d).contains(e));
                }
            }
            assert(set_ids(live) =~= live_requirements(*catalog, ids(desired@.take(i + 1))));
        }
        i = i + 1;
    }
    proof {
        assert(desired@.take(desired@.len() as int) =~= desired@);
    }
    live
}

/// The view-only entries, of `views` given as (UI entity, component) pairs,
/// whose component is among `dead` and not among `kept`.
pub open spec fn doomed_views(views: Seq<(u64, u64)>, dead: Set<u64>, kept: Set<u64>) -> Seq<u64>
    decreases views.len(),
{
    if views.len() == 0 {
        Seq::empty()
    } else {
        let prev = doomed_views(views.drop_last(), dead, kept);
        let (ui, ty) = views.last();
        if dead.contains(ty) && !kept.contains(ty) {
            prev.push(ui)
        } else {
            prev
        }
    }
}

/// The components that removing `t` may leave unneeded: `t` and what it requires.
pub open spec fn released_by(cat: TypeCatalog, t: u64) -> Set<u64> {
    ids(required_of(cat, t)).insert(t)
}

impl EntityUiRoot {
    pub open spec fn desired(&self) -> Set<u64> {
        set_ids(self.desired_component_set)
    }

    pub open spec fn ride_along(&self) -> Set<u64> {
        set_ids(self.ride_along_components)
    }

    /// A UI for `world_target` that shows no component yet.
    pub fn new(world_target: u64) -> (root: EntityUiRoot)
        ensures
            root.world_target == world_target,
            root.desired() == Set::<u64>::empty(),
            root.ride_along() == Set::<u64>::empty(),
    {
        EntityUiRoot {
            world_target,
            desired_component_set: id_set_new(),
            ride_along_components: id_set_new(),
        }
    }

    /// Whether the user chose to edit `t`.
    pub fn desires(&self, t: u64) -> (b: bool)
        ensures
            b == self.desired().contains(t),
    {
        id_set_contains(&self.desired_component_set, t)
    }

    /// Whether `t` is shown only because a chosen component requires it.
    pub fn rides_along(&self, t: u64) -> (b: bool)
        ensures
            b == self.ride_along().contains(t),
    {
        id_set_contains(&self.ride_along_components, t)
    }

    /// The chosen components, each once.
    pub fn desired_components(&self) -> (v: Vec<u64>)
        ensures
            v@.no_duplicates(),
            ids(v@) == self.desired(),
    {
        id_set_items(&self.desired_component_set)
    }

    /// The ride-along components, each once.
    pub fn ride_along_set(&self) -> (v: Vec<u64>)
        ensures
            v@.no_duplicates(),
            ids(v@) == self.ride_along(),
    {
        id_set_items(&self.ride_along_components)
    }

    /// A user picks `t` for editing.
    ///
    /// The pick is taken only if `t` is not chosen already and a value of it
    /// could be made (`instantiated`); otherwise nothing changes. A taken
    /// pick leaves the ride-along set. Its registered requirements that are
    /// not chosen join the ride-along set, so that a component is never both
    /// chosen and ride-along; those that were shown in neither set before get
    /// a view-only entry.
    pub fn select_component(&mut self, t: u64, instantiated: bool, catalog: &TypeCatalog) -> (effects: SelectionEffects)
        ensures
            final(self).world_target == old(self).world_target,
            effects.accepted == (!old(self).desired().contains(t) && instantiated),
            effects.accepted ==> {
                &&& final(self).desired() == old(self).desired().insert(t)
                &&& final(self).ride_along() == ride_along_after_pick(*catalog, old(self).desired(), old(self).ride_along(), t)
                &&& effects.released_ride_along == old(self).ride_along().contains(t)
                &&& effects.new_ride_along_views@ == fresh_views(
                    *catalog,
                    required_of(*catalog, t),
                    old(self).desired().insert(t).union(old(self).ride_along().remove(t)),
                )
            },
            !effects.accepted ==> {
                &&& final(self).desired() == old(self).desired()
                &&& final(self).ride_along() == old(self).ride_along()
                &&& !effects.released_ride_along
                &&& effects.new_ride_along_views@.len() == 0
            },
            old(self).desired().disjoint(old(self).ride_along()) ==> final(self).desired().disjoint(
                final(self).ride_along(),
            ),
    {
        if id_set_contains(&self.desired_component_set, t) || !instantiated {
            return SelectionEffects {
                accepted: false,
                released_ride_along: false,
                new_ride_along_views: Vec::new(),
            };
        }
        id_set_insert(&mut self.desired_component_set, t);
        let released = id_set_remove(&mut self.ride_along_components, t);
        let views = self.admit_requirements(t, catalog);
        SelectionEffects { accepted: true, released_ride_along: released, new_ride_along_views: views }
    }

    /// A component `t` found on a loaded scene entity is taken into the
    /// desired set, and leaves the ride-along set. Its registered
    /// requirements that are not chosen join the ride-along set; those that
    /// were shown in neither set before get a view-only entry.
    pub fn adopt_component(&mut self, t: u64, catalog: &TypeCatalog) -> (effects: SelectionEffects)
        ensures
            final(self).world_target == old(self).world_target,
            effects.accepted,
            final(self).desired() == old(self).desired().insert(t),
            final(self).ride_along() == ride_along_after_pick(*catalog, old(self).desired(), old(self).ride_along(), t),
            effects.released_ride_along == old(self).ride_along().contains(t),
            effects.new_ride_along_views@ == fresh_views(
                *catalog,
                required_of(*catalog, t),
                old(self).desired().insert(t).union(old(self).ride_along().remove(t)),
            ),
            old(self).desired().disjoint(old(self).ride_along()) ==> final(self).desired().disjoint(
                final(self).ride_along(),
            ),
    {
        id_set_insert(&mut self.desired_component_set, t);
        let released = id_set_remove(&mut self.ride_along_components, t);
        let views = self.admit_requirements(t, catalog);
        SelectionEffects { accepted: true, released_ride_along: released, new_ride_along_views: views }
    }

    /// The user removes component `t` from the entity.
    ///
    /// `t` leaves the desired set. The ride-along set loses `t` and what `t`
    /// requires, and then holds everything that the remaining chosen
    /// components require and that is not chosen itself. The view-only
    /// entries, given as (UI entity, component) pairs, of components released
    /// that way go. If `t` itself is still required, it gets a view-only
    /// entry; otherwise the released components that are neither chosen nor
    /// ride-along leave the scene entity.
    pub fn remove_component(
        &mut self,
        t: u64,
        catalog: &TypeCatalog,
        ride_along_views: &Vec<(u64, u64)>,
    ) -> (effects: RemovalEffects)
        ensures
            final(self).world_target == old(self).world_target,
            final(self).desired() == old(self).desired().remove(t),
            final(self).ride_along() == ride_along_after_removal(
                *catalog,
                old(self).desired(),
                old(self).ride_along(),
                t,
            ),
            final(self).desired().disjoint(final(self).ride_along()),
            effects.keep_view_of_removed == final(self).ride_along().contains(t),
            effects.strip_components@.no_duplicates(),
            effects.keep_view_of_removed ==> effects.strip_components@.len() == 0,
            !effects.keep_view_of_removed ==> ids(effects.strip_components@) == released_by(
                *catalog,
                t,
            ).difference(final(self).ride_along()).difference(final(self).desired()),
            effects.despawn_views@ == doomed_views(
                ride_along_views@,
                released_by(*catalog, t),
                final(self).ride_along(),
            ),
    {
        id_set_remove(&mut self.desired_component_set, t);
        let mut dead = id_set_from(catalog.requirements(t));
        id_set_insert(&mut dead, t);
        assert(set_ids(dead) =~= released_by(*catalog, t));
        let desired_now = id_set_items(&self.desired_component_set);
        let live = live_requirements_of(&desired_now, catalog);
        let kept = id_set_difference(&self.ride_along_components, &dead);
        let candidates = id_set_union(&kept, &live);
        self.ride_along_components = id_set_difference(&candidates, &self.desired_component_set);
        assert(self.desired().disjoint(self.ride_along()));
        let keep = id_set_contains(&self.ride_along_components, t);
        let strip = if keep {
            Vec::new()
        } else {
            let unneeded = id_set_difference(&dead, &self.ride_along_components);
            id_set_items(&id_set_difference(&unneeded, &self.desired_component_set))
        };
        let mut despawn: Vec<u64> = Vec::new();
        let mut i: usize = 0;
        while i < ride_along_views.len()
            invariant
                i <= ride_along_views@.len(),
                set_ids(dead) == released_by(*catalog, t),
                despawn@ == doomed_views(
                    ride_along_views@.take(i as int),
                    set_ids(dead),
                    set_ids(self.ride_along_components),
                ),
            decreases ride_along_views@.len() - i,
        {
            let (ui, ty) = ride_along_views[i];
            proof {
                assert(ride_along_views@.take(i + 1).drop_last() =~= ride_along_views@.take(i as int));
            }
            if id_set_contains(&dead, ty) && !id_set_contains(&self.ride_along_components, ty) {
                despawn.push(ui);
            }
            i = i + 1;
        }
        proof {
            assert(ride_along_views@.take(ride_along_views@.len() as int) =~= ride_along_views@);
        }
        RemovalEffects {
            despawn_views: despawn,
            keep_view_of_removed: keep,
            strip_components: strip,
        }
    }

    /// Marks the registered requirements of `t` that are not chosen as
    /// ride-along and returns, in order, those that were in neither set
    /// before.
    fn admit_requirements(&mut self, t: u64, catalog: &TypeCatalog) -> (views: Vec<u64>)
        ensures
            final(self).world_target == old(self).world_target,
            final(self).desired() == old(self).desired(),
            final(self).ride_along() == old(self).ride_along().union(
                registered_among(*catalog, required_of(*catalog, t)).difference(old(self).desired()),
            ),
            views@ == fresh_views(
                *catalog,
                required_of(*catalog, t),
                old(self).desired().union(old(self).ride_along()),
            ),
    {
        let empty: Vec<u64> = Vec::new();
        let reqs: &Vec<u64> = match catalog.find(t) {
            Some(i) => &catalog.entries[i].required,
            None => &empty,
        };
        assert(reqs@ == required_of(*catalog, t));
        let ghost r0 = self.ride_along();
        let ghost d0 = self.desired();
        let ghost all = fresh_views(*catalog, reqs@, d0.union(r0));
        let mut views: Vec<u64> = Vec::new();
        proof {
            assert(reqs@.skip(0) =~= reqs@);
            assert(views@ + all =~= all);
            assert(registered_among(*catalog, reqs@.take(0)) =~= Set::<u64>::empty());
            assert(self.ride_along() =~= r0.union(Set::<u64>::empty().difference(d0)));
        }
        let mut j: usize = 0;
        while j < reqs.len()
            invariant
                j <= reqs@.len(),
                self.world_target == old(self).world_target,
                self.desired() == d0,
                self.ride_along() == r0.union(registered_among(*catalog, reqs@.take(j as int)).difference(d0)),
                views@ + fresh_views(*catalog, reqs@.skip(j as int), d0.union(self.ride_along()))
                    == all,
            decreases reqs@.len() - j,
        {
            let r = reqs[j];
            let ghost e = d0.union(self.ride_along());
            let ghost rest = reqs@.skip(j as int);
            proof {
                assert(rest[0] == r);
                assert(rest.drop_first() =~= reqs@.skip(j + 1));
            }
            let ghost reg_prev = registered_among(*catalog, reqs@.take(j as int));
            proof {
                assert(reqs@.take(j + 1) =~= reqs@.take(j as int).push(r));
                assert forall|x: u64| reqs@.take(j + 1).contains(x) <==> (reqs@.take(
                    j as int,
                ).contains(x) || x == r) by {
                    reqs@.take(j as int).lemma_push_to_set_commute(r);
                    assert(reqs@.take(j + 1).to_set().contains(x) == reqs@.take(j + 1).contains(x));
                    assert(reqs@.take(j as int).to_set().contains(x) == reqs@.take(j as int).contains(x));
                }
            }
            if catalog.registered(r) {
                proof {
                    assert forall|x: u64| #[trigger] registered_among(*catalog, reqs@.take(j + 1)).contains(x)
                        == reg_prev.insert(r).contains(x) by {
                        if x == r {
                            assert(reqs@.take(j + 1)[j as int] == r);
                        }
                    }
                    assert(registered_among(*catalog, reqs@.take(j + 1)) =~= reg_prev.insert(r));
                }
                let active = id_set_contains(&self.desired_component_set, r);
                if active {
                    proof {
                        assert(e.contains(r));
                        assert(reg_prev.insert(r).difference(d0) =~= reg_prev.difference(d0));
                    }
                } else {
                    let added = id_set_insert(&mut self.ride_along_components, r);
                    proof {
                        assert(reg_prev.insert(r).difference(d0) =~= reg_prev.difference(d0).insert(r));
                        assert(self.ride_along() =~= r0.union(
                            registered_among(*catalog, reqs@.take(j + 1)).difference(d0),
                        ));
                    }
                    if added {
                        let ghost v0 = views@;
                        views.push(r);
                        proof {
                            assert(!e.contains(r));
                            assert(d0.union(self.ride_along()) =~= e.insert(r));
                            assert(views@ + fresh_views(*catalog, reqs@.skip(j + 1), e.insert(r))
                                =~= v0 + (seq![r] + fresh_views(*catalog, reqs@.skip(j + 1), e.insert(r))));
                        }
                    } else {
                        proof {
                            assert(e.contains(r));
                            assert(d0.union(self.ride_along()) =~= e);
                        }
                    }
                }
            } else {
                proof {
                    assert(registered_among(*catalog, reqs@.take(j + 1)) =~= reg_prev);
                }
            }
            j = j + 1;
        }
        proof {
            assert(reqs@.take(reqs@.len() as int) =~= reqs@);
            assert(reqs@.skip(reqs@.len() as int) =~= Seq::<u64>::empty());
            assert(views@ =~= views@ + Seq::<u64>::empty());
        }
        views
    }
}

/// Every ride-along component is required by some chosen component.
pub open spec fn ride_along_justified(cat: TypeCatalog, desired: Set<u64>, ride_along: Set<u64>) -> bool {
    ride_along.subset_of(live_requirements(cat, desired))
}

/// The ride-along set after `t` is picked (or adopted) with chosen set
/// `desired` and ride-along set `ride_along`.
pub open spec fn ride_along_after_pick(cat: TypeCatalog, desired: Set<u64>, ride_along: Set<u64>, t: u64) -> Set<u64> {
    ride_along.remove(t).union(registered_among(cat, required_of(cat, t)).difference(desired.insert(t)))
}

/// The ride-along set after `t` is removed.
pub open spec fn ride_along_after_removal(cat: TypeCatalog, desired: Set<u64>, ride_along: Set<u64>, t: u64) -> Set<u64> {
    ride_along.difference(released_by(cat, t)).union(live_requirements(cat, desired.remove(t))).difference(
        desired.remove(t),
    )
}

/// Picking a component keeps every ride-along component justified by a
/// chosen one.
pub proof fn lemma_selection_keeps_ride_along_justified(
    cat: TypeCatalog,
    desired: Set<u64>,
    ride_along: Set<u64>,
    t: u64,
)
    requires
        ride_along_justified(cat, desired, ride_along),
    ensures
        ride_along_justified(cat, desired.insert(t), ride_along_after_pick(cat, desired, ride_along, t)),
{
    assert forall|x: u64| ride_along_after_pick(cat, desired, ride_along, t).contains(x)
        implies live_requirements(cat, desired.insert(t)).contains(x) by {
        if ride_along.contains(x) {
            let d = choose|d: u64| desired.contains(d) && #[trigger] required_of(cat, d).contains(x);
            assert(desired.insert(t).contains(d));
        } else {
            assert(required_of(cat, t).contains(x));
            assert(desired.insert(t).contains(t));
        }
    }
}

/// Picking a component never puts a component in both sets: a chosen set
/// and a ride-along set without common member stay so.
pub proof fn lemma_selection_keeps_sets_disjoint(
    cat: TypeCatalog,
    desired: Set<u64>,
    ride_along: Set<u64>,
    t: u64,
)
    requires
        desired.disjoint(ride_along),
    ensures
        desired.insert(t).disjoint(ride_along_after_pick(cat, desired, ride_along, t)),
{
}

/// Removing a component keeps every ride-along component justified by a
/// chosen one, and no ride-along component is chosen.
pub proof fn lemma_removal_keeps_ride_along_justified(
    cat: TypeCatalog,
    desired: Set<u64>,
    ride_along: Set<u64>,
    t: u64,
)
    requires
        ride_along_justified(cat, desired, ride_along),
    ensures
        ride_along_justified(cat, desired.remove(t), ride_along_after_removal(cat, desired, ride_along, t)),
        desired.remove(t).disjoint(ride_along_after_removal(cat, desired, ride_along, t)),
{
    assert forall|x: u64| ride_along.difference(released_by(cat, t)).contains(x)
        implies live_requirements(cat, desired.remove(t)).contains(x) by {
        let d = choose|d: u64| desired.contains(d) && #[trigger] required_of(cat, d).contains(x);
        if d == t {
            assert(ids(required_of(cat, t)).contains(x));
        }
        assert(desired.remove(t).contains(d));
    }
}

/// Removing the only chosen component of a UI whose ride-along components
/// are all justified leaves no ride-along component behind.
pub proof fn lemma_removing_last_component_clears_ride_along(
    cat: TypeCatalog,
    ride_along: Set<u64>,
    t: u64,
)
    requires
        ride_along_justified(cat, Set::empty().insert(t), ride_along),
    ensures
        ride_along_after_removal(cat, Set::empty().insert(t), ride_along, t) == Set::<u64>::empty(),
{
    assert(Set::<u64>::empty().insert(t).remove(t) =~= Set::<u64>::empty());
    assert(live_requirements(cat, Set::<u64>::empty()) =~= Set::<u64>::empty());
    assert forall|x: u64| !ride_along.difference(released_by(cat, t)).contains(x) by {
        if ride_along.contains(x) {
            let d = choose|d: u64| Set::<u64>::empty().insert(t).contains(d) && #[trigger] required_of(cat, d).contains(x);
            assert(d == t);
            assert(ids(required_of(cat, t)).contains(x));
        }
    }
    assert(ride_along_after_removal(cat, Set::empty().insert(t), ride_along, t) =~= Set::<u64>::empty());
}

/// Choosing a component that was not chosen and then removing it gives
/// back the chosen set as it was.
pub proof fn lemma_select_then_remove_restores_desired(desired: Set<u64>, t: u64)
    requires
        !desired.contains(t),
    ensures
        desired.insert(t).remove(t) == desired,
{
    assert(desired.insert(t).remove(t) =~= desired);
}

/// The number of leading entries before the first `true`: the slot at which
/// a new component card goes, ahead of the view-only entries.
pub open spec fn leading_falses(flags: Seq<bool>) -> nat
    decreases flags.len(),
{
    if flags.len() == 0 || flags[0] {
        0
    } else {
        1 + leading_falses(flags.drop_first())
    }
}

/// Where a new component card goes among the children of an entity UI: before
/// the first view-only entry, or at the end when there is none.
/// `is_view_only` tells, child by child, whether a child is a view-only entry.
pub fn component_card_slot(is_view_only: &Vec<bool>) -> (slot: usize)
    ensures
        slot == leading_falses(is_view_only@),
        slot <= is_view_only@.len(),
        forall|i: int| 0 <= i < slot ==> !is_view_only@[i],
        slot < is_view_only@.len() ==> is_view_only@[slot as int],
{
    let mut i: usize = 0;
    assert(is_view_only@.skip(0) =~= is_view_only@);
    while i < is_view_only.len()
        invariant
            i <= is_view_only@.len(),
            forall|j: int| 0 <= j < i ==> !is_view_only@[j],
            leading_falses(is_view_only@) == i + leading_falses(is_view_only@.skip(i as int)),
        decreases is_view_only@.len() - i,
    {
        if is_view_only[i] {
            return i;
        }
        proof {
            assert(is_view_only@.skip(i as int).drop_first() =~= is_view_only@.skip(i + 1));
        }
        i = i + 1;
    }
    i
}

} // verus!
