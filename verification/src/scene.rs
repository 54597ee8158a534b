//! The mathematical model of a scene: what it holds of each entity, and
//! what attaching, detaching and queued commands do to it.

use crate::commands::EntityCommand;
use crate::component::{Component, ComponentKind};
use crate::displayable_component::{cache_shown, component_shown};
use crate::entity::Entity;
use crate::properties::PropertiesView;
use crate::ui::Ui;
use vstd::prelude::*;

verus! {

/// Whether a value of type `kind` is among `components`.
pub open spec fn has_kind(components: Seq<Component>, kind: ComponentKind) -> bool {
    exists|i: int| 0 <= i < components.len() && #[trigger] components[i].kind_of() == kind
}

/// The place of the value of type `kind` among `components`, if there is one.
pub open spec fn slot_of(components: Seq<Component>, kind: ComponentKind) -> int {
    choose|i: int| 0 <= i < components.len() && #[trigger] components[i].kind_of() == kind
}

/// The value of type `kind` among `components`, if there is one.
pub open spec fn value_of(components: Seq<Component>, kind: ComponentKind) -> Option<Component> {
    if has_kind(components, kind) {
        Some(components[slot_of(components, kind)])
    } else {
        None
    }
}

/// No two of `components` are of the same type.
pub open spec fn distinct_kinds(components: Seq<Component>) -> bool {
    forall|i: int, j: int|
        0 <= i < j < components.len() ==> #[trigger] components[i].kind_of()
            != #[trigger] components[j].kind_of()
}

/// Where no two components are of the same type, the place of a type is the
/// place of the one value of that type.
pub proof fn lemma_slot_of(components: Seq<Component>, i: int)
    requires
        distinct_kinds(components),
        0 <= i < components.len(),
    ensures
        has_kind(components, components[i].kind_of()),
        slot_of(components, components[i].kind_of()) == i,
{
    let kind = components[i].kind_of();
    let j = slot_of(components, kind);
    assert(0 <= j < components.len() && components[j].kind_of() == kind);
    if j < i {
        assert(components[j].kind_of() != components[i].kind_of());
    }
    if i < j {
        assert(components[i].kind_of() != components[j].kind_of());
    }
}

/// `components` once `component` is attached: it takes the place of the value
/// of its type, or comes last if there is none.
pub open spec fn attach_to(components: Seq<Component>, component: Component) -> Seq<Component> {
    if has_kind(components, component.kind_of()) {
        components.update(slot_of(components, component.kind_of()), component)
    } else {
        components.push(component)
    }
}

/// `components` once the value of type `kind` is detached; the others keep
/// their values and their order.
pub open spec fn detach_from(components: Seq<Component>, kind: ComponentKind) -> Seq<Component> {
    if has_kind(components, kind) {
        components.remove(slot_of(components, kind))
    } else {
        components
    }
}

/// `components` once `command` is carried out.
pub open spec fn execute_on(components: Seq<Component>, command: EntityCommand) -> Seq<Component> {
    match command {
        EntityCommand::Insert(component) => attach_to(components, component),
        EntityCommand::Remove(kind) => detach_from(components, kind),
    }
}

/// `components` once `commands` are carried out, oldest first.
pub open spec fn apply_to(components: Seq<Component>, commands: Seq<EntityCommand>) -> Seq<
    Component,
>
    decreases commands.len(),
{
    if commands.len() == 0 {
        components
    } else {
        execute_on(apply_to(components, commands.drop_last()), commands.last())
    }
}

/// Carrying out a command keeps the components of distinct types.
pub proof fn lemma_execute_keeps_distinct(components: Seq<Component>, command: EntityCommand)
    requires
        distinct_kinds(components),
    ensures
        distinct_kinds(execute_on(components, command)),
{
    match command {
        EntityCommand::Insert(component) => {
            let kind = component.kind_of();
            if has_kind(components, kind) {
                let slot = slot_of(components, kind);
                let after = components.update(slot, component);
                assert forall|i: int, j: int| 0 <= i < j < after.len() implies
                    #[trigger] after[i].kind_of()
                    != #[trigger] after[j].kind_of() by {
                    assert(after[i].kind_of() == components[i].kind_of());
                    assert(after[j].kind_of() == components[j].kind_of());
                }
            } else {
                let after = components.push(component);
                assert forall|i: int, j: int| 0 <= i < j < after.len() implies
                    #[trigger] after[i].kind_of()
                    != #[trigger] after[j].kind_of() by {
                    if j < components.len() {
                        assert(components[i].kind_of() != components[j].kind_of());
                    } else {
                        assert(components[i].kind_of() != kind);
                    }
                }
            }
        },
        EntityCommand::Remove(kind) => {
            if has_kind(components, kind) {
                let slot = slot_of(components, kind);
                let after = components.remove(slot);
                assert forall|i: int, j: int| 0 <= i < j < after.len() implies
                    #[trigger] after[i].kind_of()
                    != #[trigger] after[j].kind_of() by {
                    let i2 = if i < slot { i } else { i + 1 };
                    let j2 = if j < slot { j } else { j + 1 };
                    assert(components[i2].kind_of() != components[j2].kind_of());
                }
            }
        },
    }
}

/// Carrying out commands keeps the components of distinct types.
pub proof fn lemma_apply_keeps_distinct(components: Seq<Component>, commands: Seq<EntityCommand>)
    requires
        distinct_kinds(components),
    ensures
        distinct_kinds(apply_to(components, commands)),
    decreases commands.len(),
{
    if commands.len() > 0 {
        lemma_apply_keeps_distinct(components, commands.drop_last());
        lemma_execute_keeps_distinct(apply_to(components, commands.drop_last()), commands.last());
    }
}

/// Detaching a type takes its value away and leaves every other type as it
/// was, present or absent, with the value it had.
pub proof fn lemma_detach_isolated(components: Seq<Component>, removed: ComponentKind)
    requires
        distinct_kinds(components),
    ensures
        value_of(detach_from(components, removed), removed) is None,
        forall|other: ComponentKind|
            other != removed ==> #[trigger] value_of(detach_from(components, removed), other)
                == value_of(components, other),
{
    let after = detach_from(components, removed);
    lemma_execute_keeps_distinct(components, EntityCommand::Remove(removed));
    if has_kind(components, removed) {
        let slot = slot_of(components, removed);
        assert(!has_kind(after, removed)) by {
            if has_kind(after, removed) {
                let i = slot_of(after, removed);
                let i2 = if i < slot { i } else { i + 1 };
                assert(components[i2].kind_of() == removed);
                lemma_slot_of(components, i2);
            }
        }
        assert forall|other: ComponentKind| other != removed implies #[trigger] value_of(
            after,
            other,
        ) == value_of(components, other) by {
            if has_kind(components, other) {
                let i = slot_of(components, other);
                let i2 = if i < slot { i } else { i - 1 };
                assert(after[i2] == components[i]);
                lemma_slot_of(after, i2);
            }
            if has_kind(after, other) {
                let i = slot_of(after, other);
                let i2 = if i < slot { i } else { i + 1 };
                assert(components[i2] == after[i]);
                lemma_slot_of(components, i2);
            }
        }
    }
}

/// Detaching a type a second time changes nothing.
pub proof fn lemma_detach_idempotent(components: Seq<Component>, removed: ComponentKind)
    requires
        distinct_kinds(components),
    ensures
        detach_from(detach_from(components, removed), removed) == detach_from(components, removed),
{
    lemma_detach_isolated(components, removed);
}

/// Attaching a value makes it the value of its type and leaves every other
/// type as it was, present or absent, with the value it had.
pub proof fn lemma_attach_isolated(components: Seq<Component>, component: Component)
    requires
        distinct_kinds(components),
    ensures
        value_of(attach_to(components, component), component.kind_of()) == Some(component),
        forall|other: ComponentKind|
            other != component.kind_of() ==> #[trigger] value_of(
                attach_to(components, component),
                other,
            ) == value_of(components, other),
{
    let kind = component.kind_of();
    let after = attach_to(components, component);
    lemma_execute_keeps_distinct(components, EntityCommand::Insert(component));
    let place = if has_kind(components, kind) {
        slot_of(components, kind)
    } else {
        components.len() as int
    };
    assert(after[place] == component);
    lemma_slot_of(after, place);
    assert forall|other: ComponentKind| other != kind implies #[trigger] value_of(after, other)
        == value_of(components, other) by {
        if has_kind(components, other) {
            let i = slot_of(components, other);
            assert(after[i] == components[i]);
            lemma_slot_of(after, i);
        }
        if has_kind(after, other) {
            let i = slot_of(after, other);
            assert(components[i] == after[i]);
            lemma_slot_of(components, i);
        }
    }
}

/// What the scene holds of one entity, as mathematical values.
pub struct EntityView {
    /// The inspector's record of the entity.
    pub properties: PropertiesView,
    /// The components attached to the entity, in the order in which their
    /// types were first attached.
    pub components: Seq<Component>,
}

impl EntityView {
    /// The value of type `kind` that is attached, if there is one.
    pub open spec fn component_of(self, kind: ComponentKind) -> Option<Component> {
        value_of(self.components, kind)
    }

    /// The entity once `component` is attached: it takes the place of the
    /// value of its type, or comes last if there is none.
    pub open spec fn attached(self, component: Component) -> EntityView {
        EntityView {
            properties: self.properties,
            components: attach_to(self.components, component),
        }
    }

    /// The entity once the value of type `kind` is detached; the others keep
    /// their values and their order.
    pub open spec fn detached(self, kind: ComponentKind) -> EntityView {
        EntityView { properties: self.properties, components: detach_from(self.components, kind) }
    }

    /// The entity once `commands` are carried out, oldest first.
    pub open spec fn applied(self, commands: Seq<EntityCommand>) -> EntityView {
        EntityView { properties: self.properties, components: apply_to(self.components, commands) }
    }

    /// The entity under another name.
    pub open spec fn renamed(self, name: Seq<char>) -> EntityView {
        EntityView { properties: self.properties.renamed(name), components: self.components }
    }

    /// The entity after one frame of the section of its component of type
    /// `kind`; unchanged if it has no such component.
    pub open spec fn shown(self, kind: ComponentKind, ui: Ui) -> EntityView {
        if has_kind(self.components, kind) {
            let slot = slot_of(self.components, kind);
            let component = self.components[slot];
            EntityView {
                properties: self.properties.with_cache(
                    cache_shown(component, self.properties.euler_angles_cache, ui),
                ),
                components: self.components.update(slot, component_shown(component, ui)),
            }
        } else {
            self
        }
    }
}

/// What a scene holds, as mathematical values.
pub struct Scene {
    /// What the scene holds of each of its entities.
    pub entities: Map<Entity, EntityView>,
    /// The entities, oldest first.
    pub order: Seq<Entity>,
    /// The identifier that the next entity gets.
    pub next_id: nat,
}

impl Scene {
    /// The scene with no entity in it.
    pub open spec fn empty() -> Scene {
        Scene { entities: Map::empty(), order: Seq::empty(), next_id: 0 }
    }

    /// Whether `entity` is in the scene.
    pub open spec fn contains(self, entity: Entity) -> bool {
        self.entities.contains_key(entity)
    }

    /// The scene with `view` as what it holds of `entity`.
    pub open spec fn with(self, entity: Entity, view: EntityView) -> Scene {
        Scene {
            entities: self.entities.insert(entity, view),
            order: self.order,
            next_id: self.next_id,
        }
    }

    /// The identifier of the next entity, while identifiers are left.
    pub open spec fn fresh(self) -> Option<Entity> {
        if self.next_id < u64::MAX {
            Some(Entity { bits: self.next_id as u64 })
        } else {
            None
        }
    }

    /// The scene once an entity with the given record and no components is
    /// added under the next identifier. Once the identifiers have run out,
    /// the scene stays as it is.
    pub open spec fn spawned(self, properties: PropertiesView) -> Scene {
        match self.fresh() {
            Some(entity) => Scene {
                entities: self.entities.insert(
                    entity,
                    EntityView { properties, components: Seq::empty() },
                ),
                order: self.order.push(entity),
                next_id: self.next_id + 1,
            },
            None => self,
        }
    }

    /// The scene without `entity`.
    pub open spec fn despawned(self, entity: Entity) -> Scene {
        Scene {
            entities: self.entities.remove(entity),
            order: self.order.remove_value(entity),
            next_id: self.next_id,
        }
    }

    /// The scene once `entity` has another name; unchanged if the entity is
    /// not in it.
    pub open spec fn renamed(self, entity: Entity, name: Seq<char>) -> Scene {
        if self.contains(entity) {
            self.with(entity, self.entities[entity].renamed(name))
        } else {
            self
        }
    }

    /// The scene once `commands` are carried out on `entity`, oldest first;
    /// unchanged if the entity is not in it.
    pub open spec fn applied(self, entity: Entity, commands: Seq<EntityCommand>) -> Scene {
        if self.contains(entity) {
            self.with(entity, self.entities[entity].applied(commands))
        } else {
            self
        }
    }

    /// The scene once `component` is attached to `entity`; unchanged if the
    /// entity is not in it.
    pub open spec fn attached(self, entity: Entity, component: Component) -> Scene {
        if self.contains(entity) {
            self.with(entity, self.entities[entity].attached(component))
        } else {
            self
        }
    }

    /// The scene once the component of type `kind` is detached from
    /// `entity`; unchanged if the entity is not in it.
    pub open spec fn detached(self, entity: Entity, kind: ComponentKind) -> Scene {
        if self.contains(entity) {
            self.with(entity, self.entities[entity].detached(kind))
        } else {
            self
        }
    }

    /// The scene after one frame of the section of the component of type
    /// `kind` of `entity`; unchanged if the entity is not in it.
    pub open spec fn shown(self, entity: Entity, kind: ComponentKind, ui: Ui) -> Scene {
        if self.contains(entity) {
            self.with(entity, self.entities[entity].shown(kind, ui))
        } else {
            self
        }
    }

    /// The components of `entity`; none if the entity is not in the scene.
    pub open spec fn components_of(self, entity: Entity) -> Seq<Component> {
        if self.contains(entity) {
            self.entities[entity].components
        } else {
            Seq::empty()
        }
    }

    /// What every scene that a [`crate::world::World`] holds is like: the
    /// listed entities are those that have an entry, none is listed twice,
    /// every identifier in use is below the next one, and no entity has two
    /// components of one type.
    pub open spec fn valid(self) -> bool {
        &&& self.order.no_duplicates()
        &&& forall|entity: Entity| self.order.contains(entity) <==> self.contains(entity)
        &&& forall|entity: Entity| self.contains(entity) ==> entity.bits < self.next_id
        &&& forall|entity: Entity| #[trigger]
            self.contains(entity) ==> distinct_kinds(self.entities[entity].components)
    }
}

/// Carrying out a queue of one command is carrying out that command.
pub proof fn lemma_apply_one(command: EntityCommand)
    ensures
        forall|components: Seq<Component>| #[trigger]
            apply_to(components, seq![command]) == execute_on(components, command),
{
    assert forall|components: Seq<Component>| #[trigger]
        apply_to(components, seq![command]) == execute_on(components, command) by {
        let one = seq![command];
        assert(one.drop_last() =~= Seq::<EntityCommand>::empty());
        assert(one.last() == command);
        assert(apply_to(components, one.drop_last()) == components);
    }
}

} // verus!
