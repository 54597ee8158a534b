use entity_inspector::commands::EntityCommands;
use entity_inspector::component::{
    Component, ComponentKind, MaterialHandle, MeshHandle, Transform, Visibility,
};
use entity_inspector::entity::Entity;
use entity_inspector::math::{Quat, Vec3};
use entity_inspector::properties::ShowInUIProperties;
use entity_inspector::ui::{DragResponse, Ui};
use entity_inspector::world::World;

fn marker(name: &str) -> ShowInUIProperties {
    ShowInUIProperties::new(name.to_string())
}

fn bits3(x: f32, y: f32, z: f32) -> Vec3 {
    Vec3::new(x.to_bits(), y.to_bits(), z.to_bits())
}

fn unit() -> Quat {
    Quat::from_xyzw(0.0f32.to_bits(), 0.0f32.to_bits(), 0.0f32.to_bits(), 1.0f32.to_bits())
}

fn transform() -> Component {
    Component::Transform(Transform {
        translation: bits3(0.0, 1.0, 0.0),
        rotation: unit(),
        scale: bits3(1.0, 1.0, 1.0),
    })
}

fn mesh(id: u64) -> Component {
    Component::Mesh(MeshHandle { id })
}

fn material(id: u64) -> Component {
    Component::StandardMaterial(MaterialHandle { id })
}

#[test]
fn an_empty_scene_lists_nothing() {
    let world = World::new();
    assert_eq!(world.query_inspectable(), vec![]);
    assert!(!world.contains(Entity::from_bits(0)));
    assert!(world.get_marker(Entity::from_bits(0)).is_none());
    assert_eq!(world.components_of(Entity::from_bits(0)), vec![]);
}

#[test]
fn spawned_entities_get_the_next_identifier() {
    let mut world = World::new();
    let ground = world.spawn(marker("Ground")).unwrap();
    let solid = world.spawn(marker("Rhombic Dodecahedron")).unwrap();
    assert_eq!(ground, Entity::from_bits(0));
    assert_eq!(solid, Entity::from_bits(1));
    assert_eq!(world.query_inspectable(), vec![ground, solid]);
    assert_eq!(world.get_marker(ground).unwrap().name().as_str(), "Ground");
    assert_eq!(world.get_marker(solid).unwrap().name().as_str(), "Rhombic Dodecahedron");
    assert_eq!(world.get_marker(solid).unwrap().euler_angles_cache(), None);
    assert_eq!(world.components_of(ground), vec![]);
}

#[test]
fn identifiers_are_not_given_out_again() {
    let mut world = World::new();
    let first = world.spawn(marker("a")).unwrap();
    let second = world.spawn(marker("b")).unwrap();
    assert!(world.despawn(second));
    assert!(world.despawn(first));
    let third = world.spawn(marker("c")).unwrap();
    assert_eq!(third, Entity::from_bits(2));
    assert_eq!(world.query_inspectable(), vec![third]);
}

#[test]
fn despawn_takes_the_entity_and_only_it() {
    let mut world = World::new();
    let first = world.spawn(marker("a")).unwrap();
    let second = world.spawn(marker("b")).unwrap();
    let third = world.spawn(marker("c")).unwrap();
    world.attach(second, mesh(1));
    world.attach(third, mesh(2));
    assert!(world.despawn(second));
    assert!(!world.contains(second));
    assert!(world.get_marker(second).is_none());
    assert_eq!(world.components_of(second), vec![]);
    assert_eq!(world.query_inspectable(), vec![first, third]);
    assert_eq!(world.components_of(third), vec![mesh(2)]);
    assert!(!world.despawn(second));
    assert_eq!(world.query_inspectable(), vec![first, third]);
}

#[test]
fn attach_appends_a_new_type_and_replaces_a_present_one() {
    let mut world = World::new();
    let entity = world.spawn(marker("a")).unwrap();
    world.attach(entity, mesh(1));
    world.attach(entity, Component::Visibility(Visibility::Visible));
    world.attach(entity, material(2));
    assert_eq!(
        world.components_of(entity),
        vec![mesh(1), Component::Visibility(Visibility::Visible), material(2)]
    );
    world.attach(entity, Component::Visibility(Visibility::Hidden));
    assert_eq!(
        world.components_of(entity),
        vec![mesh(1), Component::Visibility(Visibility::Hidden), material(2)]
    );
    assert_eq!(
        world.get_component(entity, ComponentKind::Visibility),
        Some(Component::Visibility(Visibility::Hidden))
    );
    assert_eq!(world.get_component(entity, ComponentKind::Transform), None);
    assert_eq!(world.get_component(Entity::from_bits(9), ComponentKind::Mesh), None);
}

#[test]
fn detach_leaves_the_siblings_as_they_are() {
    let mut world = World::new();
    let entity = world.spawn(marker("a")).unwrap();
    world.attach(entity, transform());
    world.attach(entity, mesh(1));
    world.attach(entity, Component::Visibility(Visibility::Visible));
    world.attach(entity, material(2));
    world.detach(entity, ComponentKind::Mesh);
    assert_eq!(
        world.components_of(entity),
        vec![transform(), Component::Visibility(Visibility::Visible), material(2)]
    );
    assert_eq!(world.get_component(entity, ComponentKind::Mesh), None);
    assert_eq!(world.get_component(entity, ComponentKind::Transform), Some(transform()));
    assert_eq!(world.get_component(entity, ComponentKind::StandardMaterial), Some(material(2)));
    assert_eq!(world.get_marker(entity).unwrap().name().as_str(), "a");
}

#[test]
fn detaching_twice_is_detaching_once() {
    let mut world = World::new();
    let entity = world.spawn(marker("a")).unwrap();
    world.attach(entity, mesh(1));
    world.attach(entity, material(2));
    world.detach(entity, ComponentKind::Mesh);
    let once = world.components_of(entity);
    world.detach(entity, ComponentKind::Mesh);
    assert_eq!(world.components_of(entity), once);
    assert_eq!(once, vec![material(2)]);
    world.detach(entity, ComponentKind::Transform);
    assert_eq!(world.components_of(entity), vec![material(2)]);
}

#[test]
fn commands_are_carried_out_oldest_first() {
    let mut world = World::new();
    let entity = world.spawn(marker("a")).unwrap();
    world.attach(entity, mesh(1));
    let mut commands = EntityCommands::new();
    commands.insert(material(2));
    commands.remove(ComponentKind::Mesh);
    commands.insert(mesh(3));
    commands.insert(material(4));
    commands.remove(ComponentKind::Visibility);
    world.apply(entity, &commands);
    assert_eq!(world.components_of(entity), vec![material(4), mesh(3)]);

    world.apply(entity, &EntityCommands::new());
    assert_eq!(world.components_of(entity), vec![material(4), mesh(3)]);
}

#[test]
fn commands_for_an_entity_that_has_left_are_dropped() {
    let mut world = World::new();
    let gone = world.spawn(marker("gone")).unwrap();
    let stays = world.spawn(marker("stays")).unwrap();
    world.attach(stays, mesh(1));
    world.despawn(gone);

    let mut commands = EntityCommands::new();
    commands.insert(material(2));
    commands.remove(ComponentKind::Mesh);
    world.apply(gone, &commands);
    world.attach(gone, mesh(7));
    world.detach(gone, ComponentKind::Mesh);
    world.set_name(gone, "back".to_string());
    world.show_ui(gone, ComponentKind::Mesh, &Ui::untouched(bits3(0.0, 0.0, 0.0), unit()));

    assert!(!world.contains(gone));
    assert_eq!(world.query_inspectable(), vec![stays]);
    assert_eq!(world.components_of(stays), vec![mesh(1)]);
    assert_eq!(world.get_marker(stays).unwrap().name().as_str(), "stays");
}

#[test]
fn renaming_keeps_the_cache_and_the_components() {
    let mut world = World::new();
    let entity = world.spawn(marker("a")).unwrap();
    let other = world.spawn(marker("b")).unwrap();
    world.attach(entity, transform());
    let mut ui = Ui::untouched(bits3(0.0, 0.0, 0.0), unit());
    ui.transform.rotation.x = DragResponse { edit: None, has_focus: true, dragged: false };
    world.show_ui(entity, ComponentKind::Transform, &ui);
    assert_eq!(world.get_marker(entity).unwrap().euler_angles_cache(), Some(bits3(0.0, 0.0, 0.0)));

    world.set_name(entity, "renamed".to_string());
    assert_eq!(world.get_marker(entity).unwrap().name().as_str(), "renamed");
    assert_eq!(world.get_marker(entity).unwrap().euler_angles_cache(), Some(bits3(0.0, 0.0, 0.0)));
    assert_eq!(world.components_of(entity), vec![transform()]);
    assert_eq!(world.get_marker(other).unwrap().name().as_str(), "b");
}

#[test]
fn a_section_edits_its_component_in_place() {
    let mut world = World::new();
    let entity = world.spawn(marker("a")).unwrap();
    world.attach(entity, mesh(1));
    world.attach(entity, Component::Visibility(Visibility::Visible));
    world.attach(entity, material(2));
    let mut ui = Ui::untouched(bits3(0.0, 0.0, 0.0), unit());
    ui.picked = Some(Visibility::Hidden);
    world.show_ui(entity, ComponentKind::Visibility, &ui);
    assert_eq!(
        world.components_of(entity),
        vec![mesh(1), Component::Visibility(Visibility::Hidden), material(2)]
    );
    world.show_ui(entity, ComponentKind::Mesh, &ui);
    world.show_ui(entity, ComponentKind::Transform, &ui);
    assert_eq!(
        world.components_of(entity),
        vec![mesh(1), Component::Visibility(Visibility::Hidden), material(2)]
    );
    assert_eq!(world.get_marker(entity).unwrap().euler_angles_cache(), None);
}
