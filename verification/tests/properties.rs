use entity_inspector::math::Vec3;
use entity_inspector::properties::ShowInUIProperties;

#[test]
fn new_record_has_the_name_and_no_cache() {
    let properties = ShowInUIProperties::new("Ground".to_string());
    assert_eq!(properties.name().as_str(), "Ground");
    assert_eq!(properties.euler_angles_cache(), None);
}

#[test]
fn clone_marks_the_name_and_drops_the_cache() {
    let mut properties = ShowInUIProperties::new("Rhombic Dodecahedron".to_string());
    properties.set_euler_angles_cache(Some(Vec3::new(
        10.0f32.to_bits(),
        20.0f32.to_bits(),
        30.0f32.to_bits(),
    )));
    let copy = properties.clone();
    assert_eq!(copy.name().as_str(), "Rhombic Dodecahedron Copy");
    assert_eq!(copy.euler_angles_cache(), None);
    assert_eq!(properties.name().as_str(), "Rhombic Dodecahedron");
    assert!(properties.euler_angles_cache().is_some());
}
