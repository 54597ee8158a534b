use entity_inspector::component::Transform;
use entity_inspector::displayable_component::{render_transform_fields, seed_euler_angles};
use entity_inspector::math::{Quat, Vec3};
use entity_inspector::properties::ShowInUIProperties;
use entity_inspector::ui::{DragResponse, DragTriple, TransformUi};
use glam::EulerRot;

fn bits3(x: f32, y: f32, z: f32) -> Vec3 {
    Vec3::new(x.to_bits(), y.to_bits(), z.to_bits())
}

fn quat_bits(q: glam::Quat) -> Quat {
    Quat::from_xyzw(q.x.to_bits(), q.y.to_bits(), q.z.to_bits(), q.w.to_bits())
}

fn quat_floats(q: Quat) -> glam::Quat {
    glam::Quat::from_xyzw(
        f32::from_bits(q.x),
        f32::from_bits(q.y),
        f32::from_bits(q.z),
        f32::from_bits(q.w),
    )
}

/// Euler angles in degrees of `q`, for the rotation order Y, X, Z.
fn decompose(q: Quat) -> Vec3 {
    let (y, x, z) = quat_floats(q).to_euler(EulerRot::YXZ);
    bits3(x.to_degrees(), y.to_degrees(), z.to_degrees())
}

/// The orientation that the angles in degrees stand for, in the same order.
fn compose(angles: Vec3) -> Quat {
    quat_bits(glam::Quat::from_euler(
        EulerRot::YXZ,
        f32::from_bits(angles.y).to_radians(),
        f32::from_bits(angles.x).to_radians(),
        f32::from_bits(angles.z).to_radians(),
    ))
}

fn identity() -> Transform {
    Transform {
        translation: bits3(0.0, 1.0, 0.0),
        rotation: quat_bits(glam::Quat::IDENTITY),
        scale: bits3(1.0, 1.0, 1.0),
    }
}

fn drag(edit: Option<f32>, has_focus: bool, dragged: bool) -> DragResponse {
    DragResponse { edit: edit.map(f32::to_bits), has_focus, dragged }
}

/// A frame of an editable transform in which only the angle fields were used.
fn angle_frame(
    transform: &Transform,
    properties: &ShowInUIProperties,
    x: DragResponse,
    y: DragResponse,
    z: DragResponse,
) -> TransformUi {
    let decomposed = decompose(transform.rotation);
    let shown = properties.euler_angles_cache().unwrap_or(decomposed);
    let rotation = DragTriple { x, y, z };
    let mut ui = TransformUi::untouched(decomposed, transform.rotation);
    ui.rotation = rotation;
    ui.composed = compose(rotation.values(shown));
    ui
}

#[test]
fn render_without_interaction_leaves_the_cache_empty() {
    let mut transform = identity();
    let mut properties = ShowInUIProperties::new("Ground".to_string());
    let ui = TransformUi::untouched(decompose(transform.rotation), transform.rotation);
    render_transform_fields(&mut transform, &mut properties, &ui, true);
    assert_eq!(properties.euler_angles_cache(), None);
    assert_eq!(transform, identity());
    assert_eq!(properties.name().as_str(), "Ground");
}

#[test]
fn starting_a_drag_populates_the_cache() {
    let mut transform = identity();
    let mut properties = ShowInUIProperties::new("Ground".to_string());
    let idle = DragResponse::untouched();
    let ui = angle_frame(&transform, &properties, idle, drag(None, false, true), idle);
    render_transform_fields(&mut transform, &mut properties, &ui, true);
    assert_eq!(properties.euler_angles_cache(), Some(decompose(identity().rotation)));
    assert_eq!(transform.rotation, identity().rotation);
}

#[test]
fn focus_alone_keeps_the_session_open() {
    let mut transform = identity();
    let mut properties = ShowInUIProperties::new("Ground".to_string());
    let idle = DragResponse::untouched();
    let ui = angle_frame(&transform, &properties, drag(None, true, false), idle, idle);
    render_transform_fields(&mut transform, &mut properties, &ui, true);
    assert!(properties.euler_angles_cache().is_some());
}

#[test]
fn one_frame_without_focus_or_drag_clears_the_cache() {
    let mut transform = identity();
    let mut properties = ShowInUIProperties::new("Ground".to_string());
    let idle = DragResponse::untouched();
    let first = angle_frame(&transform, &properties, idle, drag(Some(30.0), true, true), idle);
    render_transform_fields(&mut transform, &mut properties, &first, true);
    let seeded = decompose(identity().rotation);
    assert_eq!(
        properties.euler_angles_cache(),
        Some(Vec3::new(seeded.x, 30.0f32.to_bits(), seeded.z))
    );
    let second = angle_frame(&transform, &properties, idle, idle, idle);
    render_transform_fields(&mut transform, &mut properties, &second, true);
    assert_eq!(properties.euler_angles_cache(), None);
}

#[test]
fn an_edit_in_the_frame_that_ends_the_session_is_still_committed() {
    let mut transform = identity();
    let mut properties = ShowInUIProperties::new("Ground".to_string());
    let idle = DragResponse::untouched();
    let ui = angle_frame(&transform, &properties, drag(Some(15.0), false, false), idle, idle);
    render_transform_fields(&mut transform, &mut properties, &ui, true);
    let seeded = decompose(identity().rotation);
    assert_eq!(properties.euler_angles_cache(), None);
    assert_eq!(
        transform.rotation,
        compose(Vec3::new(15.0f32.to_bits(), seeded.y, seeded.z))
    );
    assert!(quat_floats(transform.rotation)
        .abs_diff_eq(glam::Quat::from_rotation_x(15.0f32.to_radians()), 1e-6));
}

#[test]
fn an_edit_recomposes_the_orientation_at_once() {
    let mut transform = identity();
    let mut properties = ShowInUIProperties::new("Ground".to_string());
    let idle = DragResponse::untouched();
    let ui = angle_frame(&transform, &properties, idle, idle, drag(Some(90.0), true, false));
    render_transform_fields(&mut transform, &mut properties, &ui, true);
    let seeded = decompose(identity().rotation);
    let edited = Vec3::new(seeded.x, seeded.y, 90.0f32.to_bits());
    assert_eq!(transform.rotation, compose(edited));
    assert!(quat_floats(transform.rotation)
        .abs_diff_eq(glam::Quat::from_rotation_z(90.0f32.to_radians()), 1e-6));
    assert_eq!(properties.euler_angles_cache(), Some(edited));
    assert_eq!(transform.translation, identity().translation);
    assert_eq!(transform.scale, identity().scale);
}

#[test]
fn cached_angles_win_over_a_fresh_decomposition() {
    let mut transform = identity();
    let mut properties = ShowInUIProperties::new("Ground".to_string());
    properties.set_euler_angles_cache(Some(bits3(180.0, 0.0, 180.0)));
    let idle = DragResponse::untouched();
    let mut ui = TransformUi::untouched(bits3(0.0, 180.0, 0.0), transform.rotation);
    ui.rotation = DragTriple { x: idle, y: drag(Some(1.0), false, true), z: idle };
    ui.composed = compose(bits3(180.0, 1.0, 180.0));
    render_transform_fields(&mut transform, &mut properties, &ui, true);
    assert_eq!(properties.euler_angles_cache(), Some(bits3(180.0, 1.0, 180.0)));
    assert_eq!(transform.rotation, compose(bits3(180.0, 1.0, 180.0)));
}

#[test]
fn seeding_caches_the_decomposition_once() {
    let mut properties = ShowInUIProperties::new("Ground".to_string());
    let first = seed_euler_angles(&mut properties, bits3(1.0, 2.0, 3.0), true);
    assert_eq!(first, bits3(1.0, 2.0, 3.0));
    assert_eq!(properties.euler_angles_cache(), Some(bits3(1.0, 2.0, 3.0)));
    let second = seed_euler_angles(&mut properties, bits3(4.0, 5.0, 6.0), true);
    assert_eq!(second, bits3(1.0, 2.0, 3.0));
    assert_eq!(properties.euler_angles_cache(), Some(bits3(1.0, 2.0, 3.0)));
}

#[test]
fn read_only_seeding_shows_the_decomposition_and_leaves_the_cache() {
    let mut properties = ShowInUIProperties::new("Ground".to_string());
    let shown = seed_euler_angles(&mut properties, bits3(1.0, 2.0, 3.0), false);
    assert_eq!(shown, bits3(1.0, 2.0, 3.0));
    assert_eq!(properties.euler_angles_cache(), None);
    properties.set_euler_angles_cache(Some(bits3(7.0, 8.0, 9.0)));
    let shown = seed_euler_angles(&mut properties, bits3(1.0, 2.0, 3.0), false);
    assert_eq!(shown, bits3(1.0, 2.0, 3.0));
    assert_eq!(properties.euler_angles_cache(), Some(bits3(7.0, 8.0, 9.0)));
}

#[test]
fn read_only_fields_ignore_the_user_and_the_cache() {
    let mut transform = identity();
    let mut properties = ShowInUIProperties::new("Ground".to_string());
    properties.set_euler_angles_cache(Some(bits3(7.0, 8.0, 9.0)));
    let busy = drag(Some(45.0), true, true);
    let ui = TransformUi {
        position: DragTriple { x: busy, y: busy, z: busy },
        decomposed: decompose(transform.rotation),
        rotation: DragTriple { x: busy, y: busy, z: busy },
        composed: compose(bits3(45.0, 45.0, 45.0)),
        scale: DragTriple { x: busy, y: busy, z: busy },
    };
    render_transform_fields(&mut transform, &mut properties, &ui, false);
    assert_eq!(transform, identity());
    assert_eq!(properties.euler_angles_cache(), Some(bits3(7.0, 8.0, 9.0)));

    let idle = TransformUi::untouched(decompose(transform.rotation), transform.rotation);
    render_transform_fields(&mut transform, &mut properties, &idle, false);
    assert_eq!(properties.euler_angles_cache(), Some(bits3(7.0, 8.0, 9.0)));
}

#[test]
fn position_and_scale_take_the_numbers_in_their_fields() {
    let mut transform = identity();
    let mut properties = ShowInUIProperties::new("Ground".to_string());
    let idle = DragResponse::untouched();
    let mut ui = TransformUi::untouched(decompose(transform.rotation), transform.rotation);
    ui.position = DragTriple { x: drag(Some(2.5), false, true), y: idle, z: drag(Some(-4.0), true, false) };
    ui.scale = DragTriple { x: idle, y: drag(Some(3.0), false, true), z: idle };
    render_transform_fields(&mut transform, &mut properties, &ui, true);
    assert_eq!(transform.translation, bits3(2.5, 1.0, -4.0));
    assert_eq!(transform.scale, bits3(1.0, 3.0, 1.0));
    assert_eq!(transform.rotation, identity().rotation);
    assert_eq!(properties.euler_angles_cache(), None);
}

#[test]
fn drag_response_reports() {
    let idle = DragResponse::untouched();
    assert!(!idle.changed());
    assert!(!idle.engaged());
    assert_eq!(idle.value(7), 7);
    let edited = drag(Some(2.0), false, false);
    assert!(edited.changed());
    assert!(!edited.engaged());
    assert_eq!(edited.value(7), 2.0f32.to_bits());
    assert!(drag(None, true, false).engaged());
    assert!(drag(None, false, true).engaged());
    let triple = DragTriple { x: idle, y: edited, z: drag(None, false, true) };
    assert!(triple.changed());
    assert!(triple.engaged());
    assert_eq!(triple.values(Vec3::new(1, 2, 3)), Vec3::new(1, 2.0f32.to_bits(), 3));
    assert!(!DragTriple::untouched().changed());
    assert!(!DragTriple::untouched().engaged());
}

#[test]
fn a_session_of_edits_commits_what_a_single_construction_gives() {
    let start = quat_bits(glam::Quat::from_euler(EulerRot::YXZ, 0.3, -0.2, 0.1));
    let mut transform = identity();
    transform.rotation = start;
    let mut properties = ShowInUIProperties::new("Ground".to_string());
    let idle = DragResponse::untouched();

    let edits: [(Option<f32>, Option<f32>, Option<f32>); 4] = [
        (None, Some(10.0), None),
        (Some(-35.5), None, None),
        (None, Some(77.25), Some(12.0)),
        (None, None, None),
    ];
    for (x, y, z) in edits {
        let ui = angle_frame(
            &transform,
            &properties,
            drag(x, true, x.is_some()),
            drag(y, false, y.is_some() || x.is_none()),
            drag(z, false, z.is_some()),
        );
        render_transform_fields(&mut transform, &mut properties, &ui, true);
        assert!(properties.euler_angles_cache().is_some());
    }
    let final_angles = properties.euler_angles_cache().unwrap();
    assert_eq!(f32::from_bits(final_angles.x), -35.5);
    assert_eq!(f32::from_bits(final_angles.y), 77.25);
    assert_eq!(f32::from_bits(final_angles.z), 12.0);

    let end = angle_frame(&transform, &properties, idle, idle, idle);
    render_transform_fields(&mut transform, &mut properties, &end, true);
    assert_eq!(properties.euler_angles_cache(), None);

    let direct = glam::Quat::from_euler(
        EulerRot::YXZ,
        77.25f32.to_radians(),
        (-35.5f32).to_radians(),
        12.0f32.to_radians(),
    );
    let committed = quat_floats(transform.rotation);
    assert!(committed.abs_diff_eq(direct, 1e-6));

    let again = quat_floats(compose(decompose(transform.rotation)));
    assert!(again.abs_diff_eq(direct, 1e-4) || again.abs_diff_eq(-direct, 1e-4));
}
