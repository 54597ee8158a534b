//! What a component type offers to the inspector, and the rotation edit
//! of a transform: how the three angle fields, the edit cache and the
//! orientation move from frame to frame.

use crate::commands::{EntityCommand, EntityCommands};
use crate::component::{
    Component, ComponentKind, ComputedVisibility, GlobalTransform, MaterialHandle, MeshHandle,
    Transform, Visibility,
};
use crate::entity::Entity;
use crate::math::{Quat, Vec3};
use crate::properties::ShowInUIProperties;
use crate::ui::{TransformUi, Ui};
use vstd::prelude::*;

verus! {

/// The angles that the three angle fields are drawn with. While an edit is
/// in progress they are the cached ones, so that they neither drift nor jump
/// between frames; otherwise they are those of the current orientation. A
/// read-only transform always shows its current orientation.
pub open spec fn angles_shown(cache: Option<Vec3>, decomposed: Vec3, enabled: bool) -> Vec3 {
    match cache {
        Some(angles) if enabled => angles,
        _ => decomposed,
    }
}

/// The cache after one frame. An editable transform keeps the angles that
/// stand in the fields for as long as the user is at one of them, and drops
/// them in the first frame in which the user is at none. A read-only
/// transform leaves the cache alone.
pub open spec fn cache_rendered(cache: Option<Vec3>, ui: TransformUi, enabled: bool) -> Option<
    Vec3,
> {
    if !enabled {
        cache
    } else if ui.rotation.engaged() {
        Some(ui.rotation.values(angles_shown(cache, ui.decomposed, true)))
    } else {
        None
    }
}

/// The transform after one frame. An editable transform takes the numbers
/// that stand in its position and scale fields, and, if the user changed an
/// angle, the orientation put together from the three angles. A read-only
/// transform ignores what the user did.
pub open spec fn transform_rendered(transform: Transform, ui: TransformUi, enabled: bool)
    -> Transform {
    if !enabled {
        transform
    } else {
        Transform {
            translation: ui.position.values(transform.translation),
            rotation: if ui.rotation.changed() {
                ui.composed
            } else {
                transform.rotation
            },
            scale: ui.scale.values(transform.scale),
        }
    }
}

/// The component after one frame of its section.
pub open spec fn component_shown(component: Component, ui: Ui) -> Component {
    match component {
        Component::Transform(transform) => Component::Transform(
            transform_rendered(transform, ui.transform, true),
        ),
        Component::Visibility(visibility) => Component::Visibility(
            match ui.picked {
                Some(picked) => picked,
                None => visibility,
            },
        ),
        _ => component,
    }
}

/// The cache after one frame of the section of `component`. Only the section
/// of an editable transform touches it.
pub open spec fn cache_shown(component: Component, cache: Option<Vec3>, ui: Ui) -> Option<Vec3> {
    match component {
        Component::Transform(_) => cache_rendered(cache, ui.transform, true),
        _ => cache,
    }
}

/// Starts or continues the edit session of an editable transform: if no
/// angles are cached, caches those of the current orientation. Returns the
/// angles to draw the three angle fields with. A read-only transform shows
/// the angles of its orientation and leaves the cache alone.
pub fn seed_euler_angles(ui_properties: &mut ShowInUIProperties, decomposed: Vec3, enabled: bool)
    -> (shown: Vec3)
    ensures
        shown == angles_shown(old(ui_properties)@.euler_angles_cache, decomposed, enabled),
        final(ui_properties)@ == old(ui_properties)@.with_cache(
            if enabled {
                Some(shown)
            } else {
                old(ui_properties)@.euler_angles_cache
            },
        ),
{
    if !enabled {
        return decomposed;
    }
    let shown = match ui_properties.euler_angles_cache() {
        Some(angles) => angles,
        None => decomposed,
    };
    ui_properties.set_euler_angles_cache(Some(shown));
    shown
}

/// The cache of an editable transform after `frames`, first to last.
pub open spec fn cache_after(cache: Option<Vec3>, frames: Seq<TransformUi>) -> Option<Vec3>
    decreases frames.len(),
{
    if frames.len() == 0 {
        cache
    } else {
        cache_rendered(cache_after(cache, frames.drop_last()), frames.last(), true)
    }
}

/// An editable transform after `frames`, first to last.
pub open spec fn transform_after(transform: Transform, frames: Seq<TransformUi>) -> Transform
    decreases frames.len(),
{
    if frames.len() == 0 {
        transform
    } else {
        transform_rendered(transform_after(transform, frames.drop_last()), frames.last(), true)
    }
}

/// The angles that stand in the three angle fields of an editable transform
/// once the last of `frames` has run.
pub open spec fn angles_after(cache: Option<Vec3>, frames: Seq<TransformUi>) -> Vec3
    recommends
        frames.len() > 0,
{
    frames.last().rotation.values(
        angles_shown(cache_after(cache, frames.drop_last()), frames.last().decomposed, true),
    )
}

/// The life of the edit cache, frame by frame. A frame in which the user is
/// at none of the angle fields leaves the cache empty, whatever it held. A
/// frame in which the user is at one of them leaves in it the angles that
/// stand in the fields: the cached ones if there were any, else those of the
/// current orientation, each replaced by what the user set it to. A
/// read-only transform never touches the cache.
pub proof fn lemma_cache_lifecycle(cache: Option<Vec3>, ui: TransformUi)
    ensures
        !ui.rotation.engaged() ==> cache_rendered(cache, ui, true) is None,
        ui.rotation.engaged() ==> cache_rendered(cache, ui, true) == Some(
            ui.rotation.values(
                match cache {
                    Some(angles) => angles,
                    None => ui.decomposed,
                },
            ),
        ),
        cache_rendered(cache, ui, false) == cache,
        angles_shown(cache, ui.decomposed, false) == ui.decomposed,
{
}

/// After any frames, the cache holds angles exactly if the user was at one
/// of the angle fields in the last frame, and then it holds the angles that
/// stand in the fields.
pub proof fn lemma_cache_tracks_session(cache: Option<Vec3>, frames: Seq<TransformUi>)
    requires
        frames.len() > 0,
    ensures
        cache_after(cache, frames) == (if frames.last().rotation.engaged() {
            Some(angles_after(cache, frames))
        } else {
            None
        }),
{
}

/// Whether every one of `frames` reports as its orientation the one that
/// `compose` puts together from the angles that stand in the fields once
/// that frame has run.
pub open spec fn composed_by(
    cache: Option<Vec3>,
    frames: Seq<TransformUi>,
    compose: spec_fn(Vec3) -> Quat,
) -> bool
    decreases frames.len(),
{
    frames.len() == 0 || (composed_by(cache, frames.drop_last(), compose)
        && frames.last().composed == compose(angles_after(cache, frames)))
}

/// An edit session commits the angles it ends with. Take any orientation
/// and cache to start with, and any frames in which the user stays at the
/// angle fields until the last frame, where the session may end. If every
/// frame reports as its orientation the one that `compose` puts together
/// from the angles in the fields, and the user changed an angle in at least
/// one frame, then the orientation at the end is the one that `compose`
/// puts together from the angles the fields end with: editing through the
/// cache gives what building the orientation once, from the final angles,
/// gives.
pub proof fn lemma_session_commits_final_angles(
    transform: Transform,
    cache: Option<Vec3>,
    frames: Seq<TransformUi>,
    compose: spec_fn(Vec3) -> Quat,
)
    requires
        frames.len() > 0,
        forall|k: int| 0 <= k < frames.len() - 1 ==> (#[trigger] frames[k]).rotation.engaged(),
        composed_by(cache, frames, compose),
        exists|k: int| 0 <= k < frames.len() && (#[trigger] frames[k]).rotation.changed(),
    ensures
        transform_after(transform, frames).rotation == compose(angles_after(cache, frames)),
        !frames.last().rotation.engaged() ==> cache_after(cache, frames) is None,
    decreases frames.len(),
{
    let last = frames.last();
    let earlier = frames.drop_last();
    if !last.rotation.changed() {
        let k = choose|k: int| 0 <= k < frames.len() && (#[trigger] frames[k]).rotation.changed();
        assert(earlier[k] == frames[k]);
        assert forall|j: int| 0 <= j < earlier.len() - 1 implies
            (#[trigger] earlier[j]).rotation.engaged() by {
            assert(earlier[j] == frames[j]);
        }
        lemma_session_commits_final_angles(transform, cache, earlier, compose);
        assert(earlier.last() == frames[frames.len() - 2]);
        assert(cache_after(cache, earlier) == Some(angles_after(cache, earlier)));
        assert(angles_after(cache, frames) == angles_after(cache, earlier));
    }
}

/// One frame of the fields of a transform.
///
/// With `enabled`, the position and scale take the numbers in their fields.
/// The angle fields work on the cache: it is seeded from the current
/// orientation when empty, takes the numbers in the fields, and is cleared
/// if the user is at none of the three fields. If the user changed an angle,
/// the orientation becomes the one put together from the three angles.
/// Without `enabled`, nothing changes.
pub fn render_transform_fields(
    transform: &mut Transform,
    ui_properties: &mut ShowInUIProperties,
    ui: &TransformUi,
    enabled: bool,
)
    ensures
        *final(transform) == transform_rendered(*old(transform), *ui, enabled),
        final(ui_properties)@ == old(ui_properties)@.with_cache(
            cache_rendered(old(ui_properties)@.euler_angles_cache, *ui, enabled),
        ),
{
    if enabled {
        transform.translation = ui.position.values(transform.translation);

        let shown = seed_euler_angles(ui_properties, ui.decomposed, true);
        let euler_angles = ui.rotation.values(shown);
        ui_properties.set_euler_angles_cache(Some(euler_angles));
        if ui.rotation.changed() {
            transform.rotation = ui.composed;
        }
        if !ui.rotation.engaged() {
            ui_properties.set_euler_angles_cache(None);
        }
        transform.scale = ui.scale.values(transform.scale);
    }
}

/// What a component type offers to the inspector: a label, a copy of itself
/// for another entity, its own removal, and one frame of its widgets.
pub trait DisplayableComponent {
    /// This value as a component.
    spec fn component(&self) -> Component;

    /// The label under which the component is listed.
    fn get_name(&self) -> (name: &'static str)
        ensures
            name@ == self.component().kind_of().label(),
    ;

    /// Queues the attachment of a copy of this value. The value itself stays
    /// as it is.
    fn clone_onto(&self, commands: &mut EntityCommands)
        ensures
            final(commands)@ == old(commands)@.push(EntityCommand::Insert(self.component())),
    ;

    /// Queues the detachment of this component. The value stays as it is
    /// until the queue is applied.
    fn remove_component(&mut self, commands: &mut EntityCommands)
        ensures
            final(self).component() == old(self).component(),
            final(commands)@ == old(commands)@.push(
                EntityCommand::Remove(old(self).component().kind_of()),
            ),
    ;

    /// One frame of the component's widgets: applies what the user did to the
    /// value and to the edit cache of the entity, and to nothing else.
    fn show_ui(&mut self, entity: Entity, ui_properties: &mut ShowInUIProperties, ui: &Ui)
        ensures
            final(self).component() == component_shown(old(self).component(), *ui),
            final(ui_properties)@ == old(ui_properties)@.with_cache(
                cache_shown(old(self).component(), old(ui_properties)@.euler_angles_cache, *ui),
            ),
    ;
}

impl DisplayableComponent for Transform {
    open spec fn component(&self) -> Component {
        Component::Transform(*self)
    }

    fn get_name(&self) -> (name: &'static str) {
        "Transform"
    }

    fn clone_onto(&self, commands: &mut EntityCommands) {
        commands.insert(Component::Transform(*self));
    }

    fn remove_component(&mut self, commands: &mut EntityCommands) {
        commands.remove(ComponentKind::Transform);
    }

    fn show_ui(&mut self, _entity: Entity, ui_properties: &mut ShowInUIProperties, ui: &Ui) {
        render_transform_fields(self, ui_properties, &ui.transform, true);
    }
}

impl DisplayableComponent for GlobalTransform {
    open spec fn component(&self) -> Component {
        Component::GlobalTransform(*self)
    }

    fn get_name(&self) -> (name: &'static str) {
        "Global Transform"
    }

    fn clone_onto(&self, commands: &mut EntityCommands) {
        commands.insert(Component::GlobalTransform(*self));
    }

    fn remove_component(&mut self, commands: &mut EntityCommands) {
        commands.remove(ComponentKind::GlobalTransform);
    }

    fn show_ui(&mut self, _entity: Entity, _ui_properties: &mut ShowInUIProperties, _ui: &Ui) {
    }
}

impl DisplayableComponent for MeshHandle {
    open spec fn component(&self) -> Component {
        Component::Mesh(*self)
    }

    fn get_name(&self) -> (name: &'static str) {
        "Mesh"
    }

    fn clone_onto(&self, commands: &mut EntityCommands) {
        commands.insert(Component::Mesh(*self));
    }

    fn remove_component(&mut self, commands: &mut EntityCommands) {
        commands.remove(ComponentKind::Mesh);
    }

    fn show_ui(&mut self, _entity: Entity, _ui_properties: &mut ShowInUIProperties, _ui: &Ui) {
    }
}

impl DisplayableComponent for MaterialHandle {
    open spec fn component(&self) -> Component {
        Component::StandardMaterial(*self)
    }

    fn get_name(&self) -> (name: &'static str) {
        "StandardMaterial"
    }

    fn clone_onto(&self, commands: &mut EntityCommands) {
        commands.insert(Component::StandardMaterial(*self));
    }

    fn remove_component(&mut self, commands: &mut EntityCommands) {
        commands.remove(ComponentKind::StandardMaterial);
    }

    fn show_ui(&mut self, _entity: Entity, _ui_properties: &mut ShowInUIProperties, _ui: &Ui) {
    }
}

impl DisplayableComponent for Visibility {
    open spec fn component(&self) -> Component {
        Component::Visibility(*self)
    }

    fn get_name(&self) -> (name: &'static str) {
        "Visibility"
    }

    fn clone_onto(&self, commands: &mut EntityCommands) {
        commands.insert(Component::Visibility(*self));
    }

    fn remove_component(&mut self, commands: &mut EntityCommands) {
        commands.remove(ComponentKind::Visibility);
    }

    fn show_ui(&mut self, _entity: Entity, _ui_properties: &mut ShowInUIProperties, ui: &Ui) {
        match ui.picked {
            Some(picked) => {
                *self = picked;
            },
            None => {},
        }
    }
}

impl DisplayableComponent for ComputedVisibility {
    open spec fn component(&self) -> Component {
        Component::ComputedVisibility(*self)
    }

    fn get_name(&self) -> (name: &'static str) {
        "ComputedVisibility"
    }

    fn clone_onto(&self, commands: &mut EntityCommands) {
        commands.insert(Component::ComputedVisibility(*self));
    }

    fn remove_component(&mut self, commands: &mut EntityCommands) {
        commands.remove(ComponentKind::ComputedVisibility);
    }

    fn show_ui(&mut self, _entity: Entity, _ui_properties: &mut ShowInUIProperties, _ui: &Ui) {
    }
}

impl DisplayableComponent for Component {
    open spec fn component(&self) -> Component {
        *self
    }

    fn get_name(&self) -> (name: &'static str) {
        match self {
            Component::Transform(transform) => transform.get_name(),
            Component::GlobalTransform(transform) => transform.get_name(),
            Component::Mesh(handle) => handle.get_name(),
            Component::StandardMaterial(handle) => handle.get_name(),
            Component::Visibility(visibility) => visibility.get_name(),
            Component::ComputedVisibility(visibility) => visibility.get_name(),
        }
    }

    fn clone_onto(&self, commands: &mut EntityCommands) {
        match self {
            Component::Transform(transform) => transform.clone_onto(commands),
            Component::GlobalTransform(transform) => transform.clone_onto(commands),
            Component::Mesh(handle) => handle.clone_onto(commands),
            Component::StandardMaterial(handle) => handle.clone_onto(commands),
            Component::Visibility(visibility) => visibility.clone_onto(commands),
            Component::ComputedVisibility(visibility) => visibility.clone_onto(commands),
        }
    }

    fn remove_component(&mut self, commands: &mut EntityCommands) {
        match self {
            Component::Transform(transform) => transform.remove_component(commands),
            Component::GlobalTransform(transform) => transform.remove_component(commands),
            Component::Mesh(handle) => handle.remove_component(commands),
            Component::StandardMaterial(handle) => handle.remove_component(commands),
            Component::Visibility(visibility) => visibility.remove_component(commands),
            Component::ComputedVisibility(visibility) => visibility.remove_component(commands),
        }
    }

    fn show_ui(&mut self, entity: Entity, ui_properties: &mut ShowInUIProperties, ui: &Ui) {
        match self {
            Component::Transform(transform) => transform.show_ui(entity, ui_properties, ui),
            Component::GlobalTransform(transform) => transform.show_ui(entity, ui_properties, ui),
            Component::Mesh(handle) => handle.show_ui(entity, ui_properties, ui),
            Component::StandardMaterial(handle) => handle.show_ui(entity, ui_properties, ui),
            Component::Visibility(visibility) => visibility.show_ui(entity, ui_properties, ui),
            Component::ComputedVisibility(visibility) => visibility.show_ui(
                entity,
                ui_properties,
                ui,
            ),
        }
    }
}

} // verus!
