use entity_inspector::component::{
    Component, ComponentKind, ComputedVisibility, MaterialHandle, MeshHandle, Visibility,
};
use entity_inspector::entity::Entity;
use entity_inspector::properties::ShowInUIProperties;
use entity_inspector::registry::{register_displayable_components, Registry, RegistryError};
use entity_inspector::world::World;

const ALL: [ComponentKind; 6] = [
    ComponentKind::Transform,
    ComponentKind::GlobalTransform,
    ComponentKind::Mesh,
    ComponentKind::StandardMaterial,
    ComponentKind::Visibility,
    ComponentKind::ComputedVisibility,
];

fn computed() -> Component {
    Component::ComputedVisibility(ComputedVisibility {
        visible_in_hierarchy: true,
        visible_in_view: true,
    })
}

#[test]
fn a_new_table_is_empty() {
    let registry = Registry::new();
    for kind in ALL {
        assert!(!registry.is_registered(kind));
    }
}

#[test]
fn registering_a_type_once_succeeds() {
    let mut registry = Registry::new();
    assert_eq!(registry.register(ComponentKind::Visibility), Ok(()));
    for kind in ALL {
        assert_eq!(registry.is_registered(kind), kind == ComponentKind::Visibility);
    }
}

#[test]
fn registering_a_type_twice_is_refused() {
    for kind in ALL {
        let mut registry = Registry::new();
        assert_eq!(registry.register(kind), Ok(()));
        assert_eq!(registry.register(kind), Err(RegistryError::DuplicateRegistration(kind)));
        assert!(registry.is_registered(kind));
        for other in ALL {
            if other != kind {
                assert!(!registry.is_registered(other));
                assert_eq!(registry.register(other), Ok(()));
            }
        }
    }
}

#[test]
fn registering_the_displayable_types_fills_an_empty_table() {
    let mut registry = Registry::new();
    assert_eq!(register_displayable_components(&mut registry), Ok(()));
    for kind in ALL {
        assert!(registry.is_registered(kind));
    }
    assert_eq!(
        register_displayable_components(&mut registry),
        Err(RegistryError::DuplicateRegistration(ComponentKind::Transform))
    );
}

#[test]
fn registering_the_displayable_types_stops_at_the_first_duplicate() {
    let mut registry = Registry::new();
    assert_eq!(registry.register(ComponentKind::Mesh), Ok(()));
    assert_eq!(registry.register(ComponentKind::ComputedVisibility), Ok(()));
    assert_eq!(
        register_displayable_components(&mut registry),
        Err(RegistryError::DuplicateRegistration(ComponentKind::Mesh))
    );
    assert!(registry.is_registered(ComponentKind::Transform));
    assert!(registry.is_registered(ComponentKind::GlobalTransform));
    assert!(registry.is_registered(ComponentKind::Mesh));
    assert!(!registry.is_registered(ComponentKind::StandardMaterial));
    assert!(!registry.is_registered(ComponentKind::Visibility));
    assert!(registry.is_registered(ComponentKind::ComputedVisibility));
}

#[test]
fn handles_are_the_registered_types_that_are_attached() {
    let mut world = World::new();
    let entity = world.spawn(ShowInUIProperties::new("Ground".to_string())).unwrap();
    world.attach(entity, Component::Mesh(MeshHandle { id: 1 }));
    world.attach(entity, Component::Visibility(Visibility::Visible));
    world.attach(entity, Component::StandardMaterial(MaterialHandle { id: 2 }));
    world.attach(entity, computed());

    let mut registry = Registry::new();
    assert_eq!(registry.capabilities_of(&world, entity), vec![]);

    registry.register(ComponentKind::Transform).unwrap();
    registry.register(ComponentKind::StandardMaterial).unwrap();
    registry.register(ComponentKind::Mesh).unwrap();
    assert_eq!(
        registry.capabilities_of(&world, entity),
        vec![ComponentKind::Mesh, ComponentKind::StandardMaterial]
    );

    registry.register(ComponentKind::Visibility).unwrap();
    registry.register(ComponentKind::ComputedVisibility).unwrap();
    registry.register(ComponentKind::GlobalTransform).unwrap();
    assert_eq!(
        registry.capabilities_of(&world, entity),
        vec![
            ComponentKind::Mesh,
            ComponentKind::Visibility,
            ComponentKind::StandardMaterial,
            ComponentKind::ComputedVisibility
        ]
    );
}

#[test]
fn handles_follow_the_scene_as_it_is_now() {
    let mut world = World::new();
    let entity = world.spawn(ShowInUIProperties::new("Ground".to_string())).unwrap();
    let mut registry = Registry::new();
    register_displayable_components(&mut registry).unwrap();
    assert_eq!(registry.capabilities_of(&world, entity), vec![]);

    world.attach(entity, Component::Visibility(Visibility::Visible));
    assert_eq!(registry.capabilities_of(&world, entity), vec![ComponentKind::Visibility]);

    world.attach(entity, Component::Visibility(Visibility::Hidden));
    assert_eq!(registry.capabilities_of(&world, entity), vec![ComponentKind::Visibility]);

    world.attach(entity, Component::Mesh(MeshHandle { id: 5 }));
    world.detach(entity, ComponentKind::Visibility);
    assert_eq!(registry.capabilities_of(&world, entity), vec![ComponentKind::Mesh]);
}

#[test]
fn an_entity_outside_the_scene_has_no_handles() {
    let mut world = World::new();
    let entity = world.spawn(ShowInUIProperties::new("Ground".to_string())).unwrap();
    world.attach(entity, Component::Mesh(MeshHandle { id: 1 }));
    let mut registry = Registry::new();
    register_displayable_components(&mut registry).unwrap();
    assert_eq!(registry.capabilities_of(&world, Entity::from_bits(77)), vec![]);
    world.despawn(entity);
    assert_eq!(registry.capabilities_of(&world, entity), vec![]);
}
