//! The table of the component types that take part in inspection, and the
//! handles that it gives for an entity.

use crate::component::{Component, ComponentKind};
use crate::entity::Entity;
use crate::scene::{distinct_kinds, has_kind};
use crate::world::World;
use vstd::prelude::*;

verus! {

/// Why a registration was refused.
#[derive(Clone, Copy, Debug, PartialEq, Eq, Structural)]
pub enum RegistryError {
    /// The type already has its place in the table.
    DuplicateRegistration(ComponentKind),
}

/// The table of the component types that take part in inspection. A type
/// takes part only once it has been registered, and it is registered at most
/// once; nothing is ever taken out of the table.
#[derive(Debug)]
pub struct Registry {
    transform: bool,
    global_transform: bool,
    mesh: bool,
    standard_material: bool,
    visibility: bool,
    computed_visibility: bool,
}

/// The handles of the components among `components` whose type is in
/// `registered`: one per such component, in the order of the components.
pub open spec fn capabilities(registered: Set<ComponentKind>, components: Seq<Component>) -> Seq<
    ComponentKind,
>
    decreases components.len(),
{
    if components.len() == 0 {
        Seq::empty()
    } else {
        let earlier = capabilities(registered, components.drop_last());
        let kind = components.last().kind_of();
        if registered.contains(kind) {
            earlier.push(kind)
        } else {
            earlier
        }
    }
}

/// The components among `components` whose type is in `registered`, in the
/// order of the components.
pub open spec fn registered_among(registered: Set<ComponentKind>, components: Seq<Component>)
    -> Seq<Component>
    decreases components.len(),
{
    if components.len() == 0 {
        Seq::empty()
    } else {
        let earlier = registered_among(registered, components.drop_last());
        if registered.contains(components.last().kind_of()) {
            earlier.push(components.last())
        } else {
            earlier
        }
    }
}

/// The handles of an entity are the types of its registered components, in
/// the same order, and every registered component is one of the entity's.
pub proof fn lemma_capabilities_in_order(
    registered: Set<ComponentKind>,
    components: Seq<Component>,
)
    ensures
        capabilities(registered, components).len() == registered_among(
            registered,
            components,
        ).len(),
        forall|i: int|
            0 <= i < capabilities(registered, components).len() ==> (#[trigger] capabilities(
                registered,
                components,
            )[i]) == registered_among(registered, components)[i].kind_of(),
        forall|i: int|
            0 <= i < registered_among(registered, components).len() ==> components.contains(
                #[trigger] registered_among(registered, components)[i],
            ),
    decreases components.len(),
{
    if components.len() > 0 {
        let earlier = components.drop_last();
        lemma_capabilities_in_order(registered, earlier);
        let chosen = registered_among(registered, components);
        let chosen_earlier = registered_among(registered, earlier);
        assert forall|i: int| 0 <= i < chosen.len() implies components.contains(
            #[trigger] chosen[i],
        ) by {
            if i < chosen_earlier.len() {
                assert(earlier.contains(chosen_earlier[i]));
                let j = choose|j: int| 0 <= j < earlier.len() && earlier[j] == chosen_earlier[i];
                assert(components[j] == chosen[i]);
            } else {
                assert(components[components.len() - 1] == chosen[i]);
            }
        }
    }
}

/// The handles of an entity are exactly the registered types that are
/// attached to it, each once: an attached type that was never registered
/// has no handle, and neither has a registered type that is not attached.
pub proof fn lemma_capabilities_complete(
    registered: Set<ComponentKind>,
    components: Seq<Component>,
)
    requires
        distinct_kinds(components),
    ensures
        capabilities(registered, components).no_duplicates(),
        forall|kind: ComponentKind|
            capabilities(registered, components).contains(kind) <==> registered.contains(kind)
                && has_kind(components, kind),
    decreases components.len(),
{
    let handles = capabilities(registered, components);
    if components.len() == 0 {
        assert forall|kind: ComponentKind| !has_kind(components, kind) by {}
    } else {
        let earlier_components = components.drop_last();
        let earlier = capabilities(registered, earlier_components);
        let last = components.last().kind_of();
        assert(distinct_kinds(earlier_components)) by {
            assert forall|i: int, j: int| 0 <= i < j < earlier_components.len() implies
                #[trigger] earlier_components[i].kind_of()
                != #[trigger] earlier_components[j].kind_of() by {
                assert(components[i].kind_of() != components[j].kind_of());
            }
        }
        lemma_capabilities_complete(registered, earlier_components);
        assert(!has_kind(earlier_components, last)) by {
            if has_kind(earlier_components, last) {
                let i = choose|i: int|
                    0 <= i < earlier_components.len() && #[trigger] earlier_components[i].kind_of()
                        == last;
                assert(components[i].kind_of() != components[components.len() - 1].kind_of());
            }
        }
        assert forall|kind: ComponentKind|
            has_kind(components, kind) <==> has_kind(earlier_components, kind) || kind
                == last by {
            if has_kind(components, kind) {
                let i = choose|i: int|
                    0 <= i < components.len() && #[trigger] components[i].kind_of() == kind;
                if i < earlier_components.len() {
                    assert(earlier_components[i].kind_of() == kind);
                }
            }
            if has_kind(earlier_components, kind) {
                let i = choose|i: int|
                    0 <= i < earlier_components.len() && #[trigger] earlier_components[i].kind_of()
                        == kind;
                assert(components[i].kind_of() == kind);
            }
            if kind == last {
                assert(components[components.len() - 1].kind_of() == kind);
            }
        }
        if registered.contains(last) {
            assert(!earlier.contains(last));
            assert forall|kind: ComponentKind|
                handles.contains(kind) <==> earlier.contains(kind) || kind == last by {
                if handles.contains(kind) {
                    let i = choose|i: int| 0 <= i < handles.len() && handles[i] == kind;
                    if i < earlier.len() {
                        assert(earlier[i] == kind);
                    }
                }
                if earlier.contains(kind) {
                    let i = choose|i: int| 0 <= i < earlier.len() && earlier[i] == kind;
                    assert(handles[i] == kind);
                }
                if kind == last {
                    assert(handles[earlier.len() as int] == kind);
                }
            }
            assert forall|i: int, j: int|
                0 <= i < handles.len() && 0 <= j < handles.len() && i != j implies handles[i]
                != handles[j] by {
                if i < earlier.len() && j < earlier.len() {
                    assert(earlier[i] != earlier[j]);
                } else if i < earlier.len() {
                    assert(earlier.contains(earlier[i]));
                } else {
                    assert(earlier.contains(earlier[j]));
                }
            }
        }
    }
}

impl View for Registry {
    type V = Set<ComponentKind>;

    closed spec fn view(&self) -> Set<ComponentKind> {
        Set::new(
            |kind: ComponentKind|
                match kind {
                    ComponentKind::Transform => self.transform,
                    ComponentKind::GlobalTransform => self.global_transform,
                    ComponentKind::Mesh => self.mesh,
                    ComponentKind::StandardMaterial => self.standard_material,
                    ComponentKind::Visibility => self.visibility,
                    ComponentKind::ComputedVisibility => self.computed_visibility,
                },
        )
    }
}

impl Registry {
    /// A table with no type in it.
    pub fn new() -> (registry: Self)
        ensures
            registry@ == Set::<ComponentKind>::empty(),
    {
        let registry = Registry {
            transform: false,
            global_transform: false,
            mesh: false,
            standard_material: false,
            visibility: false,
            computed_visibility: false,
        };
        assert(registry@ =~= Set::<ComponentKind>::empty());
        registry
    }

    /// Whether `kind` has been registered.
    pub fn is_registered(&self, kind: ComponentKind) -> (registered: bool)
        ensures
            registered == self@.contains(kind),
    {
        match kind {
            ComponentKind::Transform => self.transform,
            ComponentKind::GlobalTransform => self.global_transform,
            ComponentKind::Mesh => self.mesh,
            ComponentKind::StandardMaterial => self.standard_material,
            ComponentKind::Visibility => self.visibility,
            ComponentKind::ComputedVisibility => self.computed_visibility,
        }
    }

    /// Registers `kind`. A type that is already in the table is refused, and
    /// the table stays as it was.
    pub fn register(&mut self, kind: ComponentKind) -> (result: Result<(), RegistryError>)
        ensures
            old(self)@.contains(kind) ==> result == Err::<(), RegistryError>(
                RegistryError::DuplicateRegistration(kind),
            ) && final(self)@ == old(self)@,
            !old(self)@.contains(kind) ==> result is Ok && final(self)@ == old(self)@.insert(kind),
    {
        if self.is_registered(kind) {
            return Err(RegistryError::DuplicateRegistration(kind));
        }
        match kind {
            ComponentKind::Transform => {
                self.transform = true;
            },
            ComponentKind::GlobalTransform => {
                self.global_transform = true;
            },
            ComponentKind::Mesh => {
                self.mesh = true;
            },
            ComponentKind::StandardMaterial => {
                self.standard_material = true;
            },
            ComponentKind::Visibility => {
                self.visibility = true;
            },
            ComponentKind::ComputedVisibility => {
                self.computed_visibility = true;
            },
        }
        assert(self@ =~= old(self)@.insert(kind));
        Ok(())
    }

    /// The handles of `entity`: one for each of its components whose type is
    /// registered, in the order of the components as the scene holds them
    /// now. An entity that is not in the scene has none.
    pub fn capabilities_of(&self, world: &World, entity: Entity) -> (handles: Vec<ComponentKind>)
        ensures
            handles@ == capabilities(self@, world@.components_of(entity)),
            handles@.no_duplicates(),
            forall|kind: ComponentKind|
                handles@.contains(kind) <==> self@.contains(kind) && has_kind(
                    world@.components_of(entity),
                    kind,
                ),
    {
        let components = world.components_of(entity);
        let mut handles: Vec<ComponentKind> = Vec::new();
        let mut i: usize = 0;
        while i < components.len()
            invariant
                i <= components.len(),
                handles@ == capabilities(self@, components@.take(i as int)),
            decreases components.len() - i,
        {
            let kind = components[i].kind();
            proof {
                let done = components@.take(i + 1);
                assert(done.drop_last() =~= components@.take(i as int));
                assert(done.last() == components@[i as int]);
            }
            if self.is_registered(kind) {
                handles.push(kind);
            }
            i += 1;
        }
        proof {
            assert(components@.take(i as int) =~= components@);
            lemma_capabilities_complete(self@, components@);
        }
        handles
    }
}

/// The types that the inspector knows how to show, in the order in which
/// they are registered.
pub open spec fn displayable_kinds() -> Seq<ComponentKind> {
    seq![
        ComponentKind::Transform,
        ComponentKind::GlobalTransform,
        ComponentKind::Mesh,
        ComponentKind::StandardMaterial,
        ComponentKind::Visibility,
        ComponentKind::ComputedVisibility,
    ]
}

/// The table once the first `count` of `kinds` are registered on top of
/// `registered`.
pub open spec fn with_first(registered: Set<ComponentKind>, kinds: Seq<ComponentKind>, count: int)
    -> Set<ComponentKind> {
    Set::new(|kind: ComponentKind| registered.contains(kind) || kinds.take(count).contains(kind))
}

/// The place of the first of `kinds` that is already in `registered`, or the
/// length of `kinds` if none is.
pub open spec fn first_registered(registered: Set<ComponentKind>, kinds: Seq<ComponentKind>)
    -> int
    decreases kinds.len(),
{
    if kinds.len() == 0 {
        0
    } else if registered.contains(kinds.first()) {
        0
    } else {
        1 + first_registered(registered, kinds.drop_first())
    }
}

/// Registers every type that the inspector knows how to show. Registration
/// stops at the first type that is already in the table: the types before it
/// stay registered, and the type is reported.
pub fn register_displayable_components(registry: &mut Registry) -> (result: Result<
    (),
    RegistryError,
>)
    ensures
        ({
            let kinds = displayable_kinds();
            let stop = first_registered(old(registry)@, kinds);
            &&& 0 <= stop <= kinds.len()
            &&& final(registry)@ == with_first(old(registry)@, kinds, stop)
            &&& stop == kinds.len() ==> result is Ok
            &&& stop < kinds.len() ==> result == Err::<(), RegistryError>(
                RegistryError::DuplicateRegistration(kinds[stop]),
            )
        }),
{
    let kinds = [
        ComponentKind::Transform,
        ComponentKind::GlobalTransform,
        ComponentKind::Mesh,
        ComponentKind::StandardMaterial,
        ComponentKind::Visibility,
        ComponentKind::ComputedVisibility,
    ];
    assert(kinds@ =~= displayable_kinds());
    assert(kinds@.no_duplicates());
    assert(kinds@.skip(0) =~= kinds@);
    assert(with_first(registry@, kinds@, 0) =~= registry@);
    let mut i: usize = 0;
    while i < 6
        invariant
            i <= 6,
            kinds@ == displayable_kinds(),
            kinds@.no_duplicates(),
            registry@ == with_first(old(registry)@, kinds@, i as int),
            first_registered(old(registry)@, kinds@) == i + first_registered(
                old(registry)@,
                kinds@.skip(i as int),
            ),
        decreases 6 - i,
    {
        let kind = kinds[i];
        proof {
            let rest = kinds@.skip(i as int);
            assert(rest.first() == kind);
            assert(rest.drop_first() =~= kinds@.skip(i + 1));
            assert(!kinds@.take(i as int).contains(kind)) by {
                if kinds@.take(i as int).contains(kind) {
                    let j = choose|j: int|
                        0 <= j < kinds@.take(i as int).len() && kinds@.take(i as int)[j] == kind;
                    assert(kinds@[j] == kinds@[i as int]);
                }
            }
        }
        match registry.register(kind) {
            Ok(()) => {
                proof {
                    let before = kinds@.take(i as int);
                    let now = kinds@.take(i + 1);
                    assert(now =~= before.push(kind));
                    assert forall|other: ComponentKind|
                        now.contains(other) <==> before.contains(other) || other == kind by {
                        if now.contains(other) {
                            let j = choose|j: int| 0 <= j < now.len() && now[j] == other;
                            if j < before.len() {
                                assert(before[j] == other);
                            }
                        }
                        if before.contains(other) {
                            let j = choose|j: int| 0 <= j < before.len() && before[j] == other;
                            assert(now[j] == other);
                        }
                        if other == kind {
                            assert(now[i as int] == other);
                        }
                    }
                    assert(registry@ =~= with_first(old(registry)@, kinds@, i + 1));
                }
            },
            Err(error) => {
                return Err(error);
            },
        }
        i += 1;
    }
    assert(kinds@.skip(6) =~= Seq::<ComponentKind>::empty());
    Ok(())
}

} // verus!
