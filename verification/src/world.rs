//! The store of the inspectable entities.

use crate::commands::{EntityCommand, EntityCommands};
use crate::component::{Component, ComponentKind};
use crate::displayable_component::DisplayableComponent;
use crate::entity::Entity;
use crate::properties::ShowInUIProperties;
use crate::scene::{
    apply_to, distinct_kinds, execute_on, has_kind, lemma_apply_one, lemma_execute_keeps_distinct,
    lemma_slot_of, slot_of, EntityView, Scene,
};
use crate::ui::Ui;
use vstd::prelude::*;

verus! {

/// The place of the value of type `kind` in `components`, if there is one.
fn find_kind(components: &Vec<Component>, kind: ComponentKind) -> (found: Option<usize>)
    requires
        distinct_kinds(components@),
    ensures
        found is Some == has_kind(components@, kind),
        found is Some ==> found->0 == slot_of(components@, kind),
{
    let mut i: usize = 0;
    while i < components.len()
        invariant
            i <= components.len(),
            distinct_kinds(components@),
            forall|j: int| 0 <= j < i ==> (#[trigger] components[j].kind_of()) != kind,
        decreases components.len() - i,
    {
        if components[i].kind() == kind {
            proof {
                lemma_slot_of(components@, i as int);
            }
            return Some(i);
        }
        i += 1;
    }
    None
}

fn execute(components: &mut Vec<Component>, command: EntityCommand)
    requires
        distinct_kinds(old(components)@),
    ensures
        final(components)@ == execute_on(old(components)@, command),
        distinct_kinds(final(components)@),
{
    proof {
        lemma_execute_keeps_distinct(components@, command);
    }
    match command {
        EntityCommand::Insert(component) => {
            match find_kind(components, component.kind()) {
                Some(slot) => {
                    components[slot] = component;
                },
                None => {
                    components.push(component);
                },
            }
        },
        EntityCommand::Remove(kind) => {
            match find_kind(components, kind) {
                Some(slot) => {
                    components.remove(slot);
                },
                None => {},
            }
        },
    }
}

struct EntityRecord {
    entity: Entity,
    properties: ShowInUIProperties,
    components: Vec<Component>,
}

impl View for EntityRecord {
    type V = EntityView;

    closed spec fn view(&self) -> EntityView {
        EntityView { properties: self.properties@, components: self.components@ }
    }
}

spec fn distinct_entities(records: Seq<EntityRecord>) -> bool {
    forall|i: int, j: int|
        0 <= i < j < records.len() ==> (#[trigger] records[i]).entity
            != (#[trigger] records[j]).entity
}

spec fn holds(records: Seq<EntityRecord>, entity: Entity) -> bool {
    exists|i: int| 0 <= i < records.len() && (#[trigger] records[i]).entity == entity
}

spec fn index_of(records: Seq<EntityRecord>, entity: Entity) -> int {
    choose|i: int| 0 <= i < records.len() && (#[trigger] records[i]).entity == entity
}

spec fn as_map(records: Seq<EntityRecord>) -> Map<Entity, EntityView> {
    Map::new(
        |entity: Entity| holds(records, entity),
        |entity: Entity| records[index_of(records, entity)]@,
    )
}

spec fn entities_of(records: Seq<EntityRecord>) -> Seq<Entity> {
    records.map_values(|record: EntityRecord| record.entity)
}

proof fn lemma_index_of(records: Seq<EntityRecord>, i: int)
    requires
        distinct_entities(records),
        0 <= i < records.len(),
    ensures
        holds(records, records[i].entity),
        index_of(records, records[i].entity) == i,
        as_map(records).contains_key(records[i].entity),
        as_map(records)[records[i].entity] == records[i]@,
{
    let entity = records[i].entity;
    let j = index_of(records, entity);
    assert(0 <= j < records.len() && records[j].entity == entity);
    if j < i {
        assert(records[j].entity != records[i].entity);
    }
    if i < j {
        assert(records[i].entity != records[j].entity);
    }
}

proof fn lemma_record_replaced(
    records: Seq<EntityRecord>,
    replaced: Seq<EntityRecord>,
    i: int,
)
    requires
        distinct_entities(records),
        0 <= i < records.len(),
        replaced.len() == records.len(),
        forall|j: int| 0 <= j < records.len() && j != i ==> replaced[j] == records[j],
        replaced[i].entity == records[i].entity,
    ensures
        distinct_entities(replaced),
        as_map(replaced) == as_map(records).insert(records[i].entity, replaced[i]@),
        entities_of(replaced) == entities_of(records),
{
    assert(distinct_entities(replaced)) by {
        assert forall|a: int, b: int| 0 <= a < b < replaced.len() implies
            (#[trigger] replaced[a]).entity
            != (#[trigger] replaced[b]).entity by {
            assert(records[a].entity != records[b].entity);
        }
    }
    assert forall|entity: Entity| holds(replaced, entity) == holds(records, entity) by {
        if holds(replaced, entity) {
            let j = index_of(replaced, entity);
            assert(records[j].entity == entity);
        }
        if holds(records, entity) {
            let j = index_of(records, entity);
            assert(replaced[j].entity == entity);
        }
    }
    assert forall|entity: Entity| #[trigger] holds(records, entity) implies as_map(replaced)[entity]
        == as_map(records).insert(records[i].entity, replaced[i]@)[entity] by {
        let j = index_of(records, entity);
        lemma_index_of(records, j);
        lemma_index_of(replaced, j);
    }
    assert(as_map(replaced) =~= as_map(records).insert(records[i].entity, replaced[i]@));
    assert(entities_of(replaced) =~= entities_of(records));
}

proof fn lemma_record_pushed(records: Seq<EntityRecord>, record: EntityRecord)
    requires
        distinct_entities(records),
        !holds(records, record.entity),
    ensures
        distinct_entities(records.push(record)),
        as_map(records.push(record)) == as_map(records).insert(record.entity, record@),
        entities_of(records.push(record)) == entities_of(records).push(record.entity),
{
    let pushed = records.push(record);
    assert(distinct_entities(pushed)) by {
        assert forall|a: int, b: int| 0 <= a < b < pushed.len() implies
            (#[trigger] pushed[a]).entity
            != (#[trigger] pushed[b]).entity by {
            if b < records.len() {
                assert(records[a].entity != records[b].entity);
            } else {
                assert(records[a].entity != record.entity);
            }
        }
    }
    assert forall|entity: Entity|
        holds(pushed, entity) == (holds(records, entity) || entity == record.entity) by {
        if holds(pushed, entity) {
            let j = index_of(pushed, entity);
            if j < records.len() {
                assert(records[j].entity == entity);
            }
        }
        if holds(records, entity) {
            let j = index_of(records, entity);
            assert(pushed[j].entity == entity);
        }
        if entity == record.entity {
            assert(pushed[records.len() as int].entity == entity);
        }
    }
    assert forall|entity: Entity| #[trigger] holds(pushed, entity) implies as_map(pushed)[entity]
        == as_map(records).insert(record.entity, record@)[entity] by {
        let j = index_of(pushed, entity);
        lemma_index_of(pushed, j);
        if j < records.len() {
            lemma_index_of(records, j);
        }
    }
    assert(as_map(pushed) =~= as_map(records).insert(record.entity, record@));
    assert(entities_of(pushed) =~= entities_of(records).push(record.entity));
}

proof fn lemma_record_removed(records: Seq<EntityRecord>, i: int)
    requires
        distinct_entities(records),
        0 <= i < records.len(),
    ensures
        distinct_entities(records.remove(i)),
        as_map(records.remove(i)) == as_map(records).remove(records[i].entity),
        entities_of(records.remove(i)) == entities_of(records).remove(i),
{
    let removed = records.remove(i);
    let gone = records[i].entity;
    assert(distinct_entities(removed)) by {
        assert forall|a: int, b: int| 0 <= a < b < removed.len() implies
            (#[trigger] removed[a]).entity
            != (#[trigger] removed[b]).entity by {
            let a2 = if a < i { a } else { a + 1 };
            let b2 = if b < i { b } else { b + 1 };
            assert(records[a2].entity != records[b2].entity);
        }
    }
    assert forall|entity: Entity|
        holds(removed, entity) == (holds(records, entity) && entity != gone) by {
        if holds(removed, entity) {
            let j = index_of(removed, entity);
            let j2 = if j < i { j } else { j + 1 };
            assert(records[j2].entity == entity);
            if j2 < i {
                assert(records[j2].entity != records[i].entity);
            } else {
                assert(records[i].entity != records[j2].entity);
            }
        }
        if holds(records, entity) && entity != gone {
            let j = index_of(records, entity);
            let j2 = if j < i { j } else { j - 1 };
            assert(removed[j2].entity == entity);
        }
    }
    assert forall|entity: Entity| #[trigger] holds(removed, entity) implies as_map(removed)[entity]
        == as_map(records).remove(gone)[entity] by {
        let j = index_of(removed, entity);
        let j2 = if j < i { j } else { j + 1 };
        lemma_index_of(removed, j);
        lemma_index_of(records, j2);
    }
    assert(as_map(removed) =~= as_map(records).remove(gone));
    assert(entities_of(removed) =~= entities_of(records).remove(i));
}

/// The inspectable entities of a scene, each with the inspector's record of
/// it and its components. No two components of an entity are of the same
/// type, and an identifier is never given out twice.
pub struct World {
    records: Vec<EntityRecord>,
    next_id: u64,
}

impl View for World {
    type V = Scene;

    closed spec fn view(&self) -> Scene {
        Scene {
            entities: as_map(self.records@),
            order: entities_of(self.records@),
            next_id: self.next_id as nat,
        }
    }
}

impl World {
    #[verifier::type_invariant]
    spec fn well_formed(&self) -> bool {
        &&& distinct_entities(self.records@)
        &&& forall|i: int|
            0 <= i < self.records.len() ==> (#[trigger] self.records[i]).entity.bits < self.next_id
        &&& forall|i: int|
            0 <= i < self.records.len() ==> distinct_kinds(
                (#[trigger] self.records[i]).components@,
            )
    }

    /// An empty scene.
    pub fn new() -> (world: Self)
        ensures
            world@ == Scene::empty(),
            world@.valid(),
    {
        let world = World { records: Vec::new(), next_id: 0 };
        proof {
            assert(world@.entities =~= Map::<Entity, EntityView>::empty());
            assert(world@.order =~= Seq::<Entity>::empty());
            lemma_valid(world.records@, 0);
        }
        world
    }

    fn find(&self, entity: Entity) -> (found: Option<usize>)
        ensures
            found is Some == self@.contains(entity),
            found is Some ==> found->0 < self.records.len() && self.records[found->0 as int].entity
                == entity && self@.entities[entity] == self.records[found->0 as int]@,
    {
        proof {
            use_type_invariant(self);
        }
        let mut i: usize = 0;
        while i < self.records.len()
            invariant
                i <= self.records.len(),
                distinct_entities(self.records@),
                forall|j: int| 0 <= j < i ==> (#[trigger] self.records[j]).entity != entity,
            decreases self.records.len() - i,
        {
            if self.records[i].entity == entity {
                proof {
                    lemma_index_of(self.records@, i as int);
                }
                return Some(i);
            }
            i += 1;
        }
        None
    }

    fn take_records(&mut self) -> (records: Vec<EntityRecord>)
        ensures
            records == old(self).records,
            final(self).records@ == Seq::<EntityRecord>::empty(),
            final(self).next_id == old(self).next_id,
    {
        let mut records: Vec<EntityRecord> = Vec::new();
        std::mem::swap(&mut self.records, &mut records);
        records
    }

    /// Whether `entity` is in the scene.
    pub fn contains(&self, entity: Entity) -> (found: bool)
        ensures
            found == self@.contains(entity),
            self@.valid(),
    {
        proof {
            use_type_invariant(self);
            lemma_valid(self.records@, self.next_id as nat);
        }
        self.find(entity).is_some()
    }

    /// The entities that the inspector lists, oldest first. Each entity of
    /// the scene is listed once.
    pub fn query_inspectable(&self) -> (entities: Vec<Entity>)
        ensures
            entities@ == self@.order,
            self@.valid(),
    {
        proof {
            use_type_invariant(self);
        }
        let mut entities: Vec<Entity> = Vec::new();
        let mut i: usize = 0;
        while i < self.records.len()
            invariant
                i <= self.records.len(),
                entities@ == entities_of(self.records@).take(i as int),
            decreases self.records.len() - i,
        {
            entities.push(self.records[i].entity);
            assert(entities_of(self.records@).take(i + 1) =~= entities_of(self.records@).take(
                i as int,
            ).push(self.records[i as int].entity));
            i += 1;
        }
        proof {
            assert(entities_of(self.records@).take(i as int) =~= entities_of(self.records@));
            lemma_valid(self.records@, self.next_id as nat);
        }
        entities
    }

    /// Adds an entity with the given record and no components, and returns
    /// its identifier: the next one in line. Once the identifiers have run
    /// out, the scene stays as it is and nothing is returned.
    pub fn spawn(&mut self, properties: ShowInUIProperties) -> (spawned: Option<Entity>)
        ensures
            spawned == old(self)@.fresh(),
            final(self)@ == old(self)@.spawned(properties@),
            spawned is Some ==> !old(self)@.contains(spawned->0),
            final(self)@.valid(),
    {
        proof {
            use_type_invariant(&*self);
            lemma_valid(self.records@, self.next_id as nat);
        }
        if self.next_id == u64::MAX {
            return None;
        }
        let entity = Entity { bits: self.next_id };
        let record = EntityRecord { entity, properties, components: Vec::new() };
        proof {
            assert(!holds(self.records@, entity)) by {
                if holds(self.records@, entity) {
                    let j = index_of(self.records@, entity);
                    assert(self.records[j].entity.bits < self.next_id);
                }
            }
            lemma_record_pushed(self.records@, record);
            assert(record@.components =~= Seq::<Component>::empty());
        }
        let mut records = self.take_records();
        records.push(record);
        self.next_id = self.next_id + 1;
        self.records = records;
        proof {
            use_type_invariant(&*self);
            lemma_valid(self.records@, self.next_id as nat);
        }
        Some(entity)
    }

    /// Takes `entity` out of the scene, with its record and its components.
    /// Tells whether it was there.
    pub fn despawn(&mut self, entity: Entity) -> (despawned: bool)
        ensures
            despawned == old(self)@.contains(entity),
            final(self)@ == old(self)@.despawned(entity),
            final(self)@.valid(),
    {
        proof {
            use_type_invariant(&*self);
            lemma_valid(self.records@, self.next_id as nat);
        }
        match self.find(entity) {
            Some(i) => {
                proof {
                    lemma_record_removed(self.records@, i as int);
                    lemma_entity_place(self.records@, i as int);
                }
                let mut records = self.take_records();
                records.remove(i);
                self.records = records;
                proof {
                    use_type_invariant(&*self);
                    lemma_valid(self.records@, self.next_id as nat);
                }
                true
            },
            None => {
                proof {
                    assert(self@.entities.remove(entity) =~= self@.entities);
                    lemma_entity_absent(self.records@, entity);
                }
                false
            },
        }
    }

    /// The inspector's record of `entity`, if the entity is in the scene.
    pub fn get_marker(&self, entity: Entity) -> (marker: Option<&ShowInUIProperties>)
        ensures
            marker is Some == self@.contains(entity),
            marker is Some ==> marker->0@ == self@.entities[entity].properties,
            self@.valid(),
    {
        proof {
            use_type_invariant(self);
            lemma_valid(self.records@, self.next_id as nat);
        }
        match self.find(entity) {
            Some(i) => Some(&self.records[i].properties),
            None => None,
        }
    }

    /// The components of `entity` in their order; none if the entity is not
    /// in the scene. No two of them are of the same type.
    pub fn components_of(&self, entity: Entity) -> (components: Vec<Component>)
        ensures
            components@ == self@.components_of(entity),
            distinct_kinds(components@),
            self@.valid(),
    {
        proof {
            use_type_invariant(self);
            lemma_valid(self.records@, self.next_id as nat);
        }
        match self.find(entity) {
            Some(i) => self.records[i].components.clone(),
            None => Vec::new(),
        }
    }

    /// The component of type `kind` of `entity`, if the entity is in the
    /// scene and has one.
    pub fn get_component(&self, entity: Entity, kind: ComponentKind) -> (component: Option<
        Component,
    >)
        ensures
            component == (if self@.contains(entity) {
                self@.entities[entity].component_of(kind)
            } else {
                None
            }),
            self@.valid(),
    {
        proof {
            use_type_invariant(self);
            lemma_valid(self.records@, self.next_id as nat);
        }
        match self.find(entity) {
            Some(i) => {
                match find_kind(&self.records[i].components, kind) {
                    Some(slot) => Some(self.records[i].components[slot]),
                    None => None,
                }
            },
            None => None,
        }
    }

    /// Gives `entity` another name. Does nothing if the entity is not in the
    /// scene.
    pub fn set_name(&mut self, entity: Entity, name: String)
        ensures
            final(self)@ == old(self)@.renamed(entity, name@),
            final(self)@.valid(),
    {
        proof {
            use_type_invariant(&*self);
            lemma_valid(self.records@, self.next_id as nat);
        }
        match self.find(entity) {
            Some(i) => {
                let mut records = self.take_records();
                let ghost before = records@;
                records[i].properties.set_name(name);
                proof {
                    lemma_record_replaced(before, records@, i as int);
                }
                self.records = records;
                proof {
                    use_type_invariant(&*self);
                    lemma_valid(self.records@, self.next_id as nat);
                }
            },
            None => {},
        }
    }

    /// Carries out `commands` on `entity`, oldest first. Does nothing if the
    /// entity is not in the scene.
    #[verifier::loop_isolation(false)]
    pub fn apply(&mut self, entity: Entity, commands: &EntityCommands)
        ensures
            final(self)@ == old(self)@.applied(entity, commands@),
            final(self)@.valid(),
    {
        proof {
            use_type_invariant(&*self);
            lemma_valid(self.records@, self.next_id as nat);
        }
        match self.find(entity) {
            Some(i) => {
                let mut records = self.take_records();
                let ghost before = records@;
                let mut k: usize = 0;
                while k < commands.len()
                    invariant
                        k <= commands@.len(),
                        i < before.len(),
                        records@.len() == before.len(),
                        forall|j: int| 0 <= j < before.len() && j != i ==> records@[j] == before[j],
                        records@[i as int].entity == before[i as int].entity,
                        records@[i as int].properties == before[i as int].properties,
                        distinct_kinds(records@[i as int].components@),
                        records@[i as int].components@ == apply_to(
                            before[i as int].components@,
                            commands@.take(k as int),
                        ),
                    decreases commands@.len() - k,
                {
                    match commands.get(k) {
                        Some(command) => {
                            execute(&mut records[i].components, command);
                        },
                        None => {},
                    }
                    proof {
                        let done = commands@.take(k + 1);
                        assert(done.drop_last() =~= commands@.take(k as int));
                        assert(done.last() == commands@[k as int]);
                    }
                    k += 1;
                }
                proof {
                    assert(commands@.take(k as int) =~= commands@);
                    lemma_record_replaced(before, records@, i as int);
                    assert forall|j: int| 0 <= j < records@.len() implies
                        (#[trigger] records@[j]).entity.bits
                        < self.next_id by {
                        assert(before[j].entity.bits < self.next_id);
                    }
                    assert forall|j: int| 0 <= j < records@.len() implies distinct_kinds(
                        (#[trigger] records@[j]).components@,
                    ) by {
                        assert(distinct_kinds(before[j].components@));
                    }
                }
                self.records = records;
                proof {
                    use_type_invariant(&*self);
                    lemma_valid(self.records@, self.next_id as nat);
                }
            },
            None => {},
        }
    }

    /// Attaches `component` to `entity`, in place of any value of the same
    /// type. Does nothing if the entity is not in the scene.
    pub fn attach(&mut self, entity: Entity, component: Component)
        ensures
            final(self)@ == old(self)@.attached(entity, component),
            final(self)@.valid(),
    {
        let mut commands = EntityCommands::new();
        commands.insert(component);
        proof {
            lemma_apply_one(EntityCommand::Insert(component));
        }
        self.apply(entity, &commands);
    }

    /// Detaches the component of type `kind` from `entity`. Does nothing if
    /// the entity is not in the scene or has no such component.
    pub fn detach(&mut self, entity: Entity, kind: ComponentKind)
        ensures
            final(self)@ == old(self)@.detached(entity, kind),
            final(self)@.valid(),
    {
        let mut commands = EntityCommands::new();
        commands.remove(kind);
        proof {
            lemma_apply_one(EntityCommand::Remove(kind));
        }
        self.apply(entity, &commands);
    }

    /// One frame of the section of the component of type `kind` of
    /// `entity`: what the user did is applied to the component and to the
    /// entity's edit cache. Does nothing if the entity is not in the scene or
    /// has no such component.
    pub fn show_ui(&mut self, entity: Entity, kind: ComponentKind, ui: &Ui)
        ensures
            final(self)@ == old(self)@.shown(entity, kind, *ui),
            final(self)@.valid(),
    {
        proof {
            use_type_invariant(&*self);
            lemma_valid(self.records@, self.next_id as nat);
        }
        match self.find(entity) {
            Some(i) => {
                match find_kind(&self.records[i].components, kind) {
                    Some(slot) => {
                        let mut records = self.take_records();
                        let ghost before = records@;
                        let mut component = records[i].components[slot];
                        component.show_ui(entity, &mut records[i].properties, ui);
                        records[i].components[slot] = component;
                        proof {
                            lemma_execute_keeps_distinct(
                                before[i as int].components@,
                                EntityCommand::Insert(component),
                            );
                            lemma_record_replaced(before, records@, i as int);
                        }
                        self.records = records;
                        proof {
                            use_type_invariant(&*self);
                            lemma_valid(self.records@, self.next_id as nat);
                        }
                    },
                    None => {
                        assert(self@.entities =~= self@.entities.insert(
                            entity,
                            self@.entities[entity],
                        ));
                    },
                }
            },
            None => {},
        }
    }
}

proof fn lemma_valid(records: Seq<EntityRecord>, next_id: nat)
    requires
        distinct_entities(records),
        forall|i: int| 0 <= i < records.len() ==> (#[trigger] records[i]).entity.bits < next_id,
        forall|i: int|
            0 <= i < records.len() ==> distinct_kinds((#[trigger] records[i]).components@),
    ensures
        (Scene { entities: as_map(records), order: entities_of(records), next_id }).valid(),
{
    let all = entities_of(records);
    assert forall|a: int, b: int| 0 <= a < all.len() && 0 <= b < all.len() && a != b implies all[a]
        != all[b] by {
        if a < b {
            assert(records[a].entity != records[b].entity);
        } else {
            assert(records[b].entity != records[a].entity);
        }
    }
    assert forall|entity: Entity| all.contains(entity) <==> as_map(records).contains_key(
        entity,
    ) by {
        if all.contains(entity) {
            let a = choose|a: int| 0 <= a < all.len() && all[a] == entity;
            assert(records[a].entity == entity);
        }
        if as_map(records).contains_key(entity) {
            let a = index_of(records, entity);
            assert(all[a] == entity);
        }
    }
    assert forall|entity: Entity| as_map(records).contains_key(entity) implies entity.bits < next_id
        && distinct_kinds(as_map(records)[entity].components) by {
        let a = index_of(records, entity);
        assert(records[a].entity == entity);
    }
}

proof fn lemma_entity_place(records: Seq<EntityRecord>, i: int)
    requires
        distinct_entities(records),
        0 <= i < records.len(),
    ensures
        entities_of(records).remove_value(records[i].entity) == entities_of(records).remove(i),
{
    let all = entities_of(records);
    let entity = records[i].entity;
    assert(all[i] == entity);
    assert(all.contains(entity));
    let first = all.index_of_first(entity);
    all.index_of_first_ensures(entity);
    let k = first->0;
    assert(0 <= k < all.len() && all[k] == entity);
    if k < i {
        assert(records[k].entity != records[i].entity);
    }
    if i < k {
        assert(records[i].entity != records[k].entity);
    }
}

proof fn lemma_entity_absent(records: Seq<EntityRecord>, entity: Entity)
    requires
        !holds(records, entity),
    ensures
        entities_of(records).remove_value(entity) == entities_of(records),
{
    let all = entities_of(records);
    all.index_of_first_ensures(entity);
    if all.contains(entity) {
        let k = choose|k: int| 0 <= k < all.len() && all[k] == entity;
        assert(records[k].entity == entity);
    }
}

} // verus!
