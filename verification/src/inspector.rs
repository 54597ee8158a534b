//! The pass over an entity: header, sections, and the removals and the
//! duplicate that wait until the pass is over.

use crate::commands::{EntityCommand, EntityCommands};
use crate::component::{Component, ComponentKind};
use crate::displayable_component::DisplayableComponent;
use crate::entity::Entity;
use crate::properties::{PropertiesView, ShowInUIProperties};
use crate::registry::{
    capabilities, lemma_capabilities_complete, lemma_capabilities_in_order, registered_among,
    Registry,
};
use crate::ui::Ui;
use crate::displayable_component::component_shown;
use crate::scene::{
    apply_to, distinct_kinds, has_kind, lemma_apply_keeps_distinct, lemma_attach_isolated,
    lemma_detach_isolated, lemma_slot_of, slot_of, value_of, EntityView, Scene,
};
use crate::world::World;
use vstd::prelude::*;

verus! {

/// What the user did to the section of one component in one frame.
#[derive(Clone, Copy, Debug, PartialEq, Eq, Structural)]
pub struct Section {
    /// What the component's own widgets reported.
    pub ui: Ui,
    /// Whether the user asked for the component to be removed.
    pub remove_clicked: bool,
}

/// What the user did to the panel of one entity in one frame.
#[derive(Debug)]
pub struct EntityFrame {
    /// The text of the name field, if the user changed it.
    pub name: Option<String>,
    /// The sections of the entity's capabilities, in the order of its
    /// handles.
    pub sections: Vec<Section>,
    /// Whether the user asked for a duplicate of the entity.
    pub duplicate_clicked: bool,
}

/// An [`EntityFrame`] as mathematical values.
pub struct FrameView {
    pub name: Option<Seq<char>>,
    pub sections: Seq<Section>,
    pub duplicate_clicked: bool,
}

impl View for EntityFrame {
    type V = FrameView;

    open spec fn view(&self) -> FrameView {
        FrameView {
            name: match self.name {
                Some(name) => Some(name@),
                None => None,
            },
            sections: self.sections@,
            duplicate_clicked: self.duplicate_clicked,
        }
    }
}

/// The entity that a duplication is to create: its record, and the commands
/// that attach its components.
#[derive(Debug)]
pub struct Duplicate {
    pub properties: ShowInUIProperties,
    pub components: EntityCommands,
}

/// A [`Duplicate`] as mathematical values.
pub struct DuplicateView {
    pub properties: PropertiesView,
    pub components: Seq<EntityCommand>,
}

impl View for Duplicate {
    type V = DuplicateView;

    open spec fn view(&self) -> DuplicateView {
        DuplicateView { properties: self.properties@, components: self.components@ }
    }
}

/// The structural changes that one pass over an entity asks for. The pass
/// itself makes none of them: they wait until the pass is over.
#[derive(Debug)]
pub struct Plan {
    /// The entity that was inspected.
    pub entity: Entity,
    /// The removals asked for, in the order of the handles.
    pub removals: EntityCommands,
    /// The duplicate asked for, if any.
    pub duplicate: Option<Duplicate>,
}

/// A [`Plan`] as mathematical values.
pub struct PlanView {
    pub entity: Entity,
    pub removals: Seq<EntityCommand>,
    pub duplicate: Option<DuplicateView>,
}

impl View for Plan {
    type V = PlanView;

    open spec fn view(&self) -> PlanView {
        PlanView {
            entity: self.entity,
            removals: self.removals@,
            duplicate: match self.duplicate {
                Some(duplicate) => Some(duplicate@),
                None => None,
            },
        }
    }
}

/// The entity after the header of its panel: it takes the name in the name
/// field if the user changed it.
pub open spec fn header(view: EntityView, name: Option<Seq<char>>) -> EntityView {
    match name {
        Some(name) => view.renamed(name),
        None => view,
    }
}

/// The entity after the sections of `handles`, first to last. The handle at
/// place `k` goes with the section at place `k`; a handle without a section
/// saw no frame.
pub open spec fn render_sections(
    view: EntityView,
    handles: Seq<ComponentKind>,
    sections: Seq<Section>,
) -> EntityView
    decreases handles.len(),
{
    if handles.len() == 0 {
        view
    } else {
        let earlier = render_sections(view, handles.drop_last(), sections);
        if handles.len() <= sections.len() {
            earlier.shown(handles.last(), sections[handles.len() - 1].ui)
        } else {
            earlier
        }
    }
}

/// The removals that the sections ask for: one for each handle whose section
/// has the removal flag set and whose component is attached, in the order of
/// the handles.
pub open spec fn removals(view: EntityView, handles: Seq<ComponentKind>, sections: Seq<Section>)
    -> Seq<EntityCommand>
    decreases handles.len(),
{
    if handles.len() == 0 {
        Seq::empty()
    } else {
        let earlier = removals(view, handles.drop_last(), sections);
        if handles.len() <= sections.len() && sections[handles.len() - 1].remove_clicked
            && view.component_of(handles.last()) is Some {
            earlier.push(EntityCommand::Remove(handles.last()))
        } else {
            earlier
        }
    }
}

/// The commands that attach a copy of the component of each handle, in the
/// order of the handles. A handle whose component is not attached gives no
/// command.
pub open spec fn copies(view: EntityView, handles: Seq<ComponentKind>) -> Seq<EntityCommand>
    decreases handles.len(),
{
    if handles.len() == 0 {
        Seq::empty()
    } else {
        let earlier = copies(view, handles.drop_last());
        match view.component_of(handles.last()) {
            Some(component) => earlier.push(EntityCommand::Insert(component)),
            None => earlier,
        }
    }
}

/// The entity after one pass: the header, then the sections of its handles.
pub open spec fn inspected(view: EntityView, registered: Set<ComponentKind>, frame: FrameView)
    -> EntityView {
    render_sections(
        header(view, frame.name),
        capabilities(registered, view.components),
        frame.sections,
    )
}

/// What one pass over an entity asks for, given the entity as the pass left
/// it. A duplicate gets a copy of the record, marked as a copy and with no
/// edit in progress, and a copy of the component of every handle.
pub open spec fn planned(
    entity: Entity,
    after: EntityView,
    handles: Seq<ComponentKind>,
    frame: FrameView,
) -> PlanView {
    PlanView {
        entity,
        removals: removals(after, handles, frame.sections),
        duplicate: if frame.duplicate_clicked {
            Some(
                DuplicateView {
                    properties: after.properties.duplicated(),
                    components: copies(after, handles),
                },
            )
        } else {
            None
        },
    }
}

/// The plan that asks for nothing.
pub open spec fn idle_plan(entity: Entity) -> PlanView {
    PlanView { entity, removals: Seq::empty(), duplicate: None }
}

/// The scene after the inspection of `entity`; unchanged if the entity is
/// not in it.
pub open spec fn inspected_scene(
    scene: Scene,
    registered: Set<ComponentKind>,
    entity: Entity,
    frame: FrameView,
) -> Scene {
    if scene.contains(entity) {
        scene.with(entity, inspected(scene.entities[entity], registered, frame))
    } else {
        scene
    }
}

/// What the inspection of `entity` asks for; nothing if the entity is not in
/// the scene.
pub open spec fn inspection_plan(
    scene: Scene,
    registered: Set<ComponentKind>,
    entity: Entity,
    frame: FrameView,
) -> PlanView {
    if scene.contains(entity) {
        planned(
            entity,
            inspected(scene.entities[entity], registered, frame),
            capabilities(registered, scene.entities[entity].components),
            frame,
        )
    } else {
        idle_plan(entity)
    }
}

/// One pass over `entity`: the header, the section of every handle, and the
/// collection of what the user asked for.
///
/// The name and the components take what the user did in this frame. No
/// component is attached or detached and no entity is created: what the
/// user asked for comes back as a plan. An entity that is not in the scene
/// is passed over.
pub fn inspect_entity(world: &mut World, registry: &Registry, entity: Entity, frame: &EntityFrame)
    -> (plan: Plan)
    ensures
        final(world)@ == inspected_scene(old(world)@, registry@, entity, frame@),
        plan@ == inspection_plan(old(world)@, registry@, entity, frame@),
        final(world)@.valid(),
{
    let mut plan = Plan { entity, removals: EntityCommands::new(), duplicate: None };
    if !world.contains(entity) {
        return plan;
    }
    let ghost before = world@.entities[entity];
    let ghost scene = world@;
    let handles = registry.capabilities_of(world, entity);

    match &frame.name {
        Some(name) => {
            world.set_name(entity, name.clone());
        },
        None => {
            assert(world@.entities =~= scene.with(entity, before).entities);
        },
    }
    let ghost named = header(before, frame@.name);

    let mut k: usize = 0;
    while k < handles.len()
        invariant
            k <= handles.len(),
            world@ == scene.with(
                entity,
                render_sections(named, handles@.take(k as int), frame@.sections),
            ),
            world@.valid(),
        decreases handles.len() - k,
    {
        proof {
            let done = handles@.take(k + 1);
            assert(done.drop_last() =~= handles@.take(k as int));
            assert(done.last() == handles@[k as int]);
        }
        if k < frame.sections.len() {
            let section = frame.sections[k];
            world.show_ui(entity, handles[k], &section.ui);
            assert(world@.entities =~= scene.with(
                entity,
                render_sections(named, handles@.take(k + 1), frame@.sections),
            ).entities);
        }
        k += 1;
    }
    assert(handles@.take(k as int) =~= handles@);
    let ghost after = world@.entities[entity];

    let mut k: usize = 0;
    while k < handles.len()
        invariant
            k <= handles.len(),
            world@.contains(entity),
            world@.entities[entity] == after,
            world@.valid(),
            plan.entity == entity,
            plan.duplicate is None,
            plan.removals@ == removals(after, handles@.take(k as int), frame@.sections),
        decreases handles.len() - k,
    {
        proof {
            let done = handles@.take(k + 1);
            assert(done.drop_last() =~= handles@.take(k as int));
            assert(done.last() == handles@[k as int]);
        }
        if k < frame.sections.len() && frame.sections[k].remove_clicked {
            match world.get_component(entity, handles[k]) {
                Some(component) => {
                    let mut component = component;
                    component.remove_component(&mut plan.removals);
                },
                None => {},
            }
        }
        k += 1;
    }
    assert(handles@.take(k as int) =~= handles@);

    if frame.duplicate_clicked {
        let properties = match world.get_marker(entity) {
            Some(marker) => marker.clone(),
            None => ShowInUIProperties::new(String::new()),
        };
        let mut components = EntityCommands::new();
        let mut k: usize = 0;
        while k < handles.len()
            invariant
                k <= handles.len(),
                world@.contains(entity),
                world@.entities[entity] == after,
                world@.valid(),
                components@ == copies(after, handles@.take(k as int)),
            decreases handles.len() - k,
        {
            proof {
                let done = handles@.take(k + 1);
                assert(done.drop_last() =~= handles@.take(k as int));
                assert(done.last() == handles@[k as int]);
            }
            match world.get_component(entity, handles[k]) {
                Some(component) => {
                    component.clone_onto(&mut components);
                },
                None => {},
            }
            k += 1;
        }
        assert(handles@.take(k as int) =~= handles@);
        plan.duplicate = Some(Duplicate { properties, components });
    }
    plan
}

/// The scene once what `plan` asks for is carried out: the removals on the
/// inspected entity, then the duplicate as a new entity under the next
/// identifier. Removals on an entity that has left the scene are dropped,
/// and so is a duplicate for which no identifier is left.
pub open spec fn flushed(scene: Scene, plan: PlanView) -> Scene {
    let removed = scene.applied(plan.entity, plan.removals);
    match (plan.duplicate, removed.fresh()) {
        (Some(duplicate), Some(copy)) => removed.spawned(duplicate.properties).applied(
            copy,
            duplicate.components,
        ),
        _ => removed,
    }
}

/// The entity that carrying out `plan` creates, if any.
pub open spec fn spawned_by(scene: Scene, plan: PlanView) -> Option<Entity> {
    if plan.duplicate is Some {
        scene.fresh()
    } else {
        None
    }
}

/// Carries out what a pass asked for, and returns the duplicate if one was
/// created.
pub fn apply_plan(world: &mut World, plan: Plan) -> (spawned: Option<Entity>)
    ensures
        final(world)@ == flushed(old(world)@, plan@),
        spawned == spawned_by(old(world)@, plan@),
        final(world)@.valid(),
{
    let Plan { entity, removals, duplicate } = plan;
    world.apply(entity, &removals);
    match duplicate {
        Some(duplicate) => {
            let Duplicate { properties, components } = duplicate;
            match world.spawn(properties) {
                Some(copy) => {
                    world.apply(copy, &components);
                    Some(copy)
                },
                None => None,
            }
        },
        None => None,
    }
}

/// The scene after one whole pass over `entity`: the inspection, then what
/// it asked for.
pub open spec fn pass(
    scene: Scene,
    registered: Set<ComponentKind>,
    entity: Entity,
    frame: FrameView,
) -> Scene {
    flushed(
        inspected_scene(scene, registered, entity, frame),
        inspection_plan(scene, registered, entity, frame),
    )
}

/// One whole pass over `entity`: the inspection, then, once it is over, the
/// removals and the duplicate that it asked for. Returns the duplicate if
/// one was created.
pub fn run_pass(world: &mut World, registry: &Registry, entity: Entity, frame: &EntityFrame)
    -> (spawned: Option<Entity>)
    ensures
        final(world)@ == pass(old(world)@, registry@, entity, frame@),
        spawned == spawned_by(
            old(world)@,
            inspection_plan(old(world)@, registry@, entity, frame@),
        ),
        final(world)@.valid(),
{
    let plan = inspect_entity(world, registry, entity, frame);
    apply_plan(world, plan)
}

/// The scene after one frame of the inspector: a whole pass over each of
/// `entities`, first to last. The entity at place `k` goes with the frame at
/// place `k`; an entity without a frame is passed over.
pub open spec fn passes(
    scene: Scene,
    registered: Set<ComponentKind>,
    entities: Seq<Entity>,
    frames: Seq<EntityFrame>,
) -> Scene
    decreases entities.len(),
{
    if entities.len() == 0 {
        scene
    } else {
        let earlier = passes(scene, registered, entities.drop_last(), frames);
        if entities.len() <= frames.len() {
            pass(earlier, registered, entities.last(), frames[entities.len() - 1]@)
        } else {
            earlier
        }
    }
}

/// One frame of the inspector: a whole pass over every entity that the scene
/// lists when the frame begins, oldest first. Entities created in this
/// frame are not visited before the next one. Returns the duplicates that
/// were created, in the order of their creation.
pub fn draw_ui(world: &mut World, registry: &Registry, frames: &Vec<EntityFrame>) -> (spawned: Vec<
    Entity,
>)
    ensures
        final(world)@ == passes(old(world)@, registry@, old(world)@.order, frames@),
        final(world)@.order == old(world)@.order + spawned@,
        final(world)@.valid(),
{
    let entities = world.query_inspectable();
    let mut spawned: Vec<Entity> = Vec::new();
    let mut k: usize = 0;
    assert(world@.order + spawned@ =~= world@.order);
    while k < entities.len()
        invariant
            k <= entities.len(),
            entities@ == old(world)@.order,
            world@ == passes(old(world)@, registry@, entities@.take(k as int), frames@),
            world@.order == old(world)@.order + spawned@,
            world@.valid(),
        decreases entities.len() - k,
    {
        proof {
            let done = entities@.take(k + 1);
            assert(done.drop_last() =~= entities@.take(k as int));
            assert(done.last() == entities@[k as int]);
        }
        if k < frames.len() {
            match run_pass(world, registry, entities[k], &frames[k]) {
                Some(copy) => {
                    spawned.push(copy);
                    assert(world@.order =~= old(world)@.order + spawned@);
                },
                None => {},
            }
        }
        k += 1;
    }
    assert(entities@.take(k as int) =~= entities@);
    spawned
}

/// Whether the section of a handle of type `kind` has the removal flag set.
pub open spec fn removal_requested(
    handles: Seq<ComponentKind>,
    sections: Seq<Section>,
    kind: ComponentKind,
) -> bool {
    exists|k: int|
        0 <= k < handles.len() && k < sections.len() && #[trigger] handles[k] == kind
            && sections[k].remove_clicked
}

/// Removal leaves the siblings alone. Once the removals that a pass asked
/// for are carried out, a type whose removal was asked for is gone, and
/// every other type is as the pass left it: present or absent, with the
/// value it had.
pub proof fn lemma_removal_isolated(
    view: EntityView,
    handles: Seq<ComponentKind>,
    sections: Seq<Section>,
)
    requires
        distinct_kinds(view.components),
    ensures
        view.applied(removals(view, handles, sections)).properties == view.properties,
        forall|kind: ComponentKind| #[trigger]
            view.applied(removals(view, handles, sections)).component_of(kind) == (
            if removal_requested(handles, sections, kind) {
                None
            } else {
                view.component_of(kind)
            }),
    decreases handles.len(),
{
    let asked = removals(view, handles, sections);
    let left = apply_to(view.components, asked);
    if handles.len() == 0 {
        assert forall|kind: ComponentKind| !removal_requested(handles, sections, kind) by {}
    } else {
        let earlier_handles = handles.drop_last();
        let earlier = removals(view, earlier_handles, sections);
        let earlier_left = apply_to(view.components, earlier);
        let last = handles.last();
        let n = handles.len() - 1;
        let flagged = handles.len() <= sections.len() && sections[n].remove_clicked;
        lemma_removal_isolated(view, earlier_handles, sections);
        lemma_apply_keeps_distinct(view.components, earlier);
        assert forall|kind: ComponentKind|
            removal_requested(handles, sections, kind) <==> removal_requested(
                earlier_handles,
                sections,
                kind,
            ) || (flagged && kind == last) by {
            if removal_requested(handles, sections, kind) {
                let k = choose|k: int|
                    0 <= k < handles.len() && k < sections.len() && #[trigger] handles[k] == kind
                        && sections[k].remove_clicked;
                if k < n {
                    assert(earlier_handles[k] == kind);
                }
            }
            if removal_requested(earlier_handles, sections, kind) {
                let k = choose|k: int|
                    0 <= k < earlier_handles.len() && k < sections.len()
                        && #[trigger] earlier_handles[k] == kind && sections[k].remove_clicked;
                assert(handles[k] == kind);
            }
            if flagged && kind == last {
                assert(handles[n] == kind);
            }
        }
        assert forall|kind: ComponentKind|
            value_of(earlier_left, kind) == view.applied(earlier).component_of(kind) by {}
        if flagged && view.component_of(last) is Some {
            assert(asked.drop_last() =~= earlier);
            assert(asked.last() == EntityCommand::Remove(last));
            lemma_detach_isolated(earlier_left, last);
        }
        assert forall|kind: ComponentKind| #[trigger]
            view.applied(asked).component_of(kind) == (if removal_requested(
                handles,
                sections,
                kind,
            ) {
                None
            } else {
                view.component_of(kind)
            }) by {
            assert(value_of(earlier_left, kind) == view.applied(earlier).component_of(kind));
        }
    }
}

/// Two lists of components with the same types at the same places.
pub open spec fn same_kinds(left: Seq<Component>, right: Seq<Component>) -> bool {
    &&& left.len() == right.len()
    &&& forall|i: int| 0 <= i < left.len() ==> (#[trigger] left[i]).kind_of() == right[i].kind_of()
}

/// Lists with the same types at the same places hold the same types, and
/// give the same handles.
pub proof fn lemma_same_kinds(
    left: Seq<Component>,
    right: Seq<Component>,
    registered: Set<ComponentKind>,
)
    requires
        same_kinds(left, right),
    ensures
        distinct_kinds(left) == distinct_kinds(right),
        forall|kind: ComponentKind| has_kind(left, kind) == has_kind(right, kind),
        capabilities(registered, left) == capabilities(registered, right),
    decreases left.len(),
{
    assert forall|kind: ComponentKind| has_kind(left, kind) == has_kind(right, kind) by {
        if has_kind(left, kind) {
            let i = slot_of(left, kind);
            assert(right[i].kind_of() == kind);
        }
        if has_kind(right, kind) {
            let i = slot_of(right, kind);
            assert(left[i].kind_of() == kind);
        }
    }
    if distinct_kinds(left) {
        assert forall|i: int, j: int| 0 <= i < j < right.len() implies #[trigger] right[i].kind_of()
            != #[trigger] right[j].kind_of() by {
            assert(left[i].kind_of() != left[j].kind_of());
        }
    }
    if distinct_kinds(right) {
        assert forall|i: int, j: int| 0 <= i < j < left.len() implies #[trigger] left[i].kind_of()
            != #[trigger] left[j].kind_of() by {
            assert(right[i].kind_of() != right[j].kind_of());
        }
    }
    if left.len() > 0 {
        assert(same_kinds(left.drop_last(), right.drop_last()));
        lemma_same_kinds(left.drop_last(), right.drop_last(), registered);
        assert(left.last().kind_of() == right.last().kind_of());
    }
}

/// An inspection attaches and detaches nothing: the entity has the same
/// types at the same places as before.
pub proof fn lemma_inspection_keeps_kinds(
    view: EntityView,
    registered: Set<ComponentKind>,
    frame: FrameView,
)
    ensures
        same_kinds(inspected(view, registered, frame).components, view.components),
{
    lemma_sections_keep_kinds(
        header(view, frame.name),
        capabilities(registered, view.components),
        frame.sections,
    );
}

proof fn lemma_sections_keep_kinds(
    view: EntityView,
    handles: Seq<ComponentKind>,
    sections: Seq<Section>,
)
    ensures
        same_kinds(render_sections(view, handles, sections).components, view.components),
    decreases handles.len(),
{
    if handles.len() > 0 {
        let earlier = render_sections(view, handles.drop_last(), sections);
        lemma_sections_keep_kinds(view, handles.drop_last(), sections);
        if handles.len() <= sections.len() {
            let ui = sections[handles.len() - 1].ui;
            let after = earlier.shown(handles.last(), ui);
            assert forall|i: int| 0 <= i < after.components.len() implies
                (#[trigger] after.components[i]).kind_of()
                == earlier.components[i].kind_of() by {
                assert(component_shown(earlier.components[i], ui).kind_of()
                    == earlier.components[i].kind_of());
            }
        }
    }
}

/// The components that the copies of `handles` give to a new entity: for
/// each handle the value that `view` has of that type, and nothing else.
pub proof fn lemma_copies_attach_each(view: EntityView, handles: Seq<ComponentKind>)
    requires
        distinct_kinds(view.components),
        handles.no_duplicates(),
    ensures
        distinct_kinds(apply_to(Seq::empty(), copies(view, handles))),
        forall|kind: ComponentKind| #[trigger]
            value_of(apply_to(Seq::empty(), copies(view, handles)), kind) == (
            if handles.contains(kind) {
                view.component_of(kind)
            } else {
                None
            }),
    decreases handles.len(),
{
    let none = Seq::<Component>::empty();
    let made = apply_to(none, copies(view, handles));
    if handles.len() == 0 {
        assert forall|kind: ComponentKind| !has_kind(none, kind) by {}
        assert forall|kind: ComponentKind| !handles.contains(kind) by {}
    } else {
        let earlier_handles = handles.drop_last();
        let earlier = copies(view, earlier_handles);
        let earlier_made = apply_to(none, earlier);
        let last = handles.last();
        let n = handles.len() - 1;
        assert(earlier_handles.no_duplicates());
        lemma_copies_attach_each(view, earlier_handles);
        assert(!earlier_handles.contains(last)) by {
            if earlier_handles.contains(last) {
                let k = choose|k: int| 0 <= k < earlier_handles.len() && earlier_handles[k] == last;
                assert(handles[k] == handles[n]);
            }
        }
        assert forall|kind: ComponentKind|
            handles.contains(kind) <==> earlier_handles.contains(kind) || kind == last by {
            if handles.contains(kind) {
                let k = choose|k: int| 0 <= k < handles.len() && handles[k] == kind;
                if k < n {
                    assert(earlier_handles[k] == kind);
                }
            }
            if earlier_handles.contains(kind) {
                let k = choose|k: int| 0 <= k < earlier_handles.len() && earlier_handles[k] == kind;
                assert(handles[k] == kind);
            }
            if kind == last {
                assert(handles[n] == kind);
            }
        }
        match view.component_of(last) {
            Some(component) => {
                let all = copies(view, handles);
                assert(all.drop_last() =~= earlier);
                assert(all.last() == EntityCommand::Insert(component));
                assert(component.kind_of() == last);
                lemma_attach_isolated(earlier_made, component);
                assert(value_of(earlier_made, last) is None);
                assert forall|kind: ComponentKind| #[trigger]
                    value_of(made, kind) == (if handles.contains(kind) {
                        view.component_of(kind)
                    } else {
                        None
                    }) by {
                    if kind != last {
                        assert(value_of(made, kind) == value_of(earlier_made, kind));
                    }
                }
            },
            None => {
                assert forall|kind: ComponentKind| #[trigger]
                    value_of(made, kind) == (if handles.contains(kind) {
                        view.component_of(kind)
                    } else {
                        None
                    }) by {
                    assert(value_of(made, kind) == value_of(earlier_made, kind));
                }
            },
        }
        lemma_apply_keeps_distinct(none, copies(view, handles));
    }
}

/// The copies of an entity's handles build its registered components anew,
/// in their order: carried out on an entity without components, they give
/// the components of `view` whose type is registered, first to last.
pub proof fn lemma_copies_in_order(view: EntityView, registered: Set<ComponentKind>)
    requires
        distinct_kinds(view.components),
    ensures
        apply_to(Seq::empty(), copies(view, capabilities(registered, view.components)))
            == registered_among(registered, view.components),
{
    lemma_copies_of_prefix(view, registered, view.components.len() as int);
    assert(view.components.take(view.components.len() as int) =~= view.components);
}

proof fn lemma_copies_of_prefix(view: EntityView, registered: Set<ComponentKind>, n: int)
    requires
        distinct_kinds(view.components),
        0 <= n <= view.components.len(),
    ensures
        apply_to(Seq::empty(), copies(view, capabilities(registered, view.components.take(n))))
            == registered_among(registered, view.components.take(n)),
    decreases n,
{
    let listed = view.components.take(n);
    if n > 0 {
        let earlier = view.components.take(n - 1);
        let last = view.components[n - 1];
        let kind = last.kind_of();
        assert(listed.drop_last() =~= earlier);
        assert(listed.last() == last);
        lemma_copies_of_prefix(view, registered, n - 1);
        if registered.contains(kind) {
            let handles = capabilities(registered, listed);
            let earlier_handles = capabilities(registered, earlier);
            let built = registered_among(registered, earlier);
            assert(handles.drop_last() =~= earlier_handles);
            assert(handles.last() == kind);
            lemma_slot_of(view.components, n - 1);
            assert(view.component_of(kind) == Some(last));
            let queued = copies(view, handles);
            assert(queued.drop_last() =~= copies(view, earlier_handles));
            assert(queued.last() == EntityCommand::Insert(last));
            lemma_capabilities_in_order(registered, earlier);
            assert(!has_kind(built, kind)) by {
                if has_kind(built, kind) {
                    let i = slot_of(built, kind);
                    assert(earlier.contains(built[i]));
                    let j = choose|j: int| 0 <= j < earlier.len() && earlier[j] == built[i];
                    assert(view.components[j].kind_of() == view.components[n - 1].kind_of());
                }
            }
        }
    } else {
        assert(listed =~= Seq::<Component>::empty());
    }
}

/// A duplicate stands on its own. Take a pass over an entity of a scene in
/// which the user asked for a duplicate, while an identifier is left. Then
/// the scene has one entity more, under the identifier that was next. Its
/// record is a copy of the record of the source as the inspection left it,
/// marked as a copy and with no edit in progress. Its components are those
/// of the source whose type is registered, in the same order and with the
/// values that they had when the inspection was over. From then on the two
/// share nothing: renaming the source, or changing a component of either,
/// leaves the other as it is.
pub proof fn lemma_duplicate_independent(
    scene: Scene,
    registered: Set<ComponentKind>,
    entity: Entity,
    frame: FrameView,
)
    requires
        scene.valid(),
        scene.contains(entity),
        frame.duplicate_clicked,
        scene.fresh() is Some,
    ensures
        ({
            let copy = scene.fresh()->0;
            let source = inspected(scene.entities[entity], registered, frame);
            let after = pass(scene, registered, entity, frame);
            &&& copy != entity
            &&& !scene.contains(copy)
            &&& after.contains(copy)
            &&& after.contains(entity)
            &&& after.entities[copy].properties == source.properties.duplicated()
            &&& after.entities[copy].components == registered_among(registered, source.components)
            &&& forall|kind: ComponentKind| #[trigger]
                after.entities[copy].component_of(kind) == (if registered.contains(kind) {
                    source.component_of(kind)
                } else {
                    None
                })
            &&& forall|name: Seq<char>| #[trigger]
                after.renamed(entity, name).entities[copy] == after.entities[copy]
            &&& forall|component: Component| #[trigger]
                after.attached(copy, component).entities[entity] == after.entities[entity]
            &&& forall|component: Component| #[trigger]
                after.attached(entity, component).entities[copy] == after.entities[copy]
            &&& forall|kind: ComponentKind, ui: Ui| #[trigger]
                after.shown(copy, kind, ui).entities[entity] == after.entities[entity]
            &&& forall|kind: ComponentKind, ui: Ui| #[trigger]
                after.shown(entity, kind, ui).entities[copy] == after.entities[copy]
        }),
{
    let copy = scene.fresh()->0;
    let before = scene.entities[entity];
    let source = inspected(before, registered, frame);
    let handles = capabilities(registered, before.components);
    let after = pass(scene, registered, entity, frame);
    assert(distinct_kinds(before.components));
    lemma_inspection_keeps_kinds(before, registered, frame);
    lemma_same_kinds(source.components, before.components, registered);
    lemma_capabilities_complete(registered, before.components);
    lemma_copies_attach_each(source, handles);
    lemma_copies_in_order(source, registered);
    assert forall|kind: ComponentKind| #[trigger]
        after.entities[copy].component_of(kind) == (if registered.contains(kind) {
            source.component_of(kind)
        } else {
            None
        }) by {
        assert(after.entities[copy].components == apply_to(
            Seq::empty(),
            copies(source, handles),
        ));
        assert(value_of(after.entities[copy].components, kind) == (if handles.contains(kind) {
            source.component_of(kind)
        } else {
            None
        }));
    }
}

/// A pass over one entity touches no other. Every other entity that was in
/// the scene is there afterwards with the record and the components it had,
/// and nothing is added but the duplicate, if one was asked for.
pub proof fn lemma_pass_leaves_siblings(
    scene: Scene,
    registered: Set<ComponentKind>,
    entity: Entity,
    frame: FrameView,
)
    requires
        scene.valid(),
    ensures
        ({
            let after = pass(scene, registered, entity, frame);
            let plan = inspection_plan(scene, registered, entity, frame);
            &&& forall|other: Entity|
                other != entity && scene.contains(other) ==> after.contains(other)
                    && #[trigger] after.entities[other] == scene.entities[other]
            &&& forall|other: Entity| #[trigger]
                after.contains(other) ==> scene.contains(other) || spawned_by(scene, plan) == Some(
                    other,
                )
            &&& after.contains(entity) == scene.contains(entity)
        }),
{
}

/// Removal in a pass leaves the siblings alone. After a whole pass over an
/// entity, a type whose removal was asked for is gone from it, and every
/// other type is as the inspection left it: present or absent, with the
/// value it had, whatever else was removed in the same pass.
pub proof fn lemma_pass_removal_isolated(
    scene: Scene,
    registered: Set<ComponentKind>,
    entity: Entity,
    frame: FrameView,
)
    requires
        scene.valid(),
        scene.contains(entity),
    ensures
        ({
            let handles = capabilities(registered, scene.entities[entity].components);
            let inspected = inspected(scene.entities[entity], registered, frame);
            let after = pass(scene, registered, entity, frame);
            &&& after.contains(entity)
            &&& after.entities[entity].properties == inspected.properties
            &&& forall|kind: ComponentKind| #[trigger]
                after.entities[entity].component_of(kind) == (if removal_requested(
                    handles,
                    frame.sections,
                    kind,
                ) {
                    None
                } else {
                    inspected.component_of(kind)
                })
        }),
{
    let before = scene.entities[entity];
    let handles = capabilities(registered, before.components);
    let inspected = inspected(before, registered, frame);
    let after = pass(scene, registered, entity, frame);
    lemma_inspection_keeps_kinds(before, registered, frame);
    lemma_same_kinds(inspected.components, before.components, registered);
    lemma_removal_isolated(inspected, handles, frame.sections);
    assert(after.entities[entity] == inspected.applied(
        removals(inspected, handles, frame.sections),
    ));
}

} // verus!
