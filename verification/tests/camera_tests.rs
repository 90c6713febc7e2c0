use render_core::camera::{Camera, CameraMovement};
use render_core::vec3::Vec3;

#[test]
fn default_camera_state() {
    let c = Camera::default();
    assert_eq!(c.position, Vec3 { x: 0, y: 0, z: 0 });
    assert_eq!(c.yaw, 270000);
    assert_eq!(c.pitch, 0);
    assert_eq!(c.movement_speed, 2500);
    assert_eq!(c.mouse_sensitivity, 100);
    assert_eq!(c.zoom, 45000);
}

#[test]
fn default_axes_are_exact() {
    let c = Camera::default();
    // yaw -90 degrees, pitch 0: front looks down the negative z axis.
    assert_eq!(c.front, Vec3 { x: 0, y: 0, z: -1048576 });
    // right = front x world_up, unnormalised: the positive x axis.
    assert_eq!(c.right, Vec3 { x: 1099511627776, y: 0, z: 0 });
    // up = right x front: the positive y axis.
    assert_eq!(c.up, Vec3 { x: 0, y: 1152921504606846976, z: 0 });
}

#[test]
fn forward_moves_exactly_by_speed_times_time() {
    // Default speed 2.5 units/s for one second moves the camera exactly
    // 2.5 units along front = (0, 0, -1).
    let mut c = Camera::default();
    c.process_keyboard(CameraMovement::FORWARD, 1000);
    assert_eq!(c.position, Vec3 { x: 0, y: 0, z: -2500 });
}

#[test]
fn backward_and_strafing_move_along_the_axes() {
    let mut c = Camera::default();
    c.process_keyboard(CameraMovement::BACKWARD, 1000);
    assert_eq!(c.position, Vec3 { x: 0, y: 0, z: 2500 });
    let mut c = Camera::default();
    c.process_keyboard(CameraMovement::RIGHT, 1000);
    assert_eq!(c.position, Vec3 { x: 2500, y: 0, z: 0 });
    c.process_keyboard(CameraMovement::LEFT, 2000);
    assert_eq!(c.position, Vec3 { x: -2500, y: 0, z: 0 });
}

#[test]
fn mouse_movement_scales_by_sensitivity() {
    let mut c = Camera::default();
    // One count (1000 thousandths) at sensitivity 100 mdeg/count.
    c.process_mouse_movement(1000, 1000, true);
    assert_eq!(c.yaw, 270100);
    assert_eq!(c.pitch, 100);
}

#[test]
fn constrained_pitch_never_leaves_the_band() {
    let mut c = Camera::default();
    // A full second of wild upward mouse motion, in several calls.
    for _ in 0..5 {
        c.process_mouse_movement(0, 500_000, true);
        assert!(-89000 <= c.pitch && c.pitch <= 89000);
    }
    assert_eq!(c.pitch, 89000);
    for _ in 0..7 {
        c.process_mouse_movement(0, -400_000, true);
        assert!(-89000 <= c.pitch && c.pitch <= 89000);
    }
    assert_eq!(c.pitch, -89000);
}

#[test]
fn unconstrained_pitch_folds_into_principal_range() {
    let mut c = Camera::default();
    // 200 degrees up without the constraint: folds to -160 degrees.
    c.process_mouse_movement(0, 2_000_000, false);
    assert_eq!(c.pitch, -160000);
}

#[test]
fn yaw_wraps_around_a_full_turn() {
    let mut c = Camera::default();
    // 100 degrees of yaw from 270 degrees wraps to 10 degrees.
    c.process_mouse_movement(1_000_000, 0, true);
    assert_eq!(c.yaw, 10000);
}

#[test]
fn zoom_converges_to_the_near_bound_and_never_passes_it() {
    let mut c = Camera::default();
    assert_eq!(c.zoom, 45000);
    let expected = [35000u32, 25000, 15000, 5000, 1000, 1000, 1000];
    for e in expected {
        c.process_mouse_scroll(10000);
        assert_eq!(c.zoom, e);
        assert!((1000..=45000).contains(&c.zoom));
    }
}

#[test]
fn zoom_clamps_at_the_wide_bound() {
    let mut c = Camera::default();
    c.process_mouse_scroll(-10000);
    assert_eq!(c.zoom, 45000);
    c.process_mouse_scroll(500);
    assert_eq!(c.zoom, 44500);
    c.process_mouse_scroll(-10000);
    assert_eq!(c.zoom, 45000);
}

#[test]
fn view_matrix_of_default_camera_is_the_identity_frame() {
    let mut c = Camera::default();
    c.position = Vec3 { x: 0, y: 0, z: 3000 };
    let m = c.get_view_matrix();
    assert_eq!(m.right_axis, Vec3 { x: 1048576, y: 0, z: 0 });
    assert_eq!(m.up_axis, Vec3 { x: 0, y: 1048576, z: 0 });
    assert_eq!(m.front_axis, Vec3 { x: 0, y: 0, z: -1048576 });
    // The eye sits three units down the positive z axis, so view space
    // carries it to z = -3.
    assert_eq!(m.translation, Vec3 { x: 0, y: 0, z: -3000 });
}

#[test]
fn axes_stay_perpendicular_after_arbitrary_motion() {
    let mut c = Camera::default();
    c.process_mouse_movement(37_123, -9_421, true);
    c.process_mouse_movement(-311_007, 44_881, true);
    c.process_mouse_movement(91_500, 13_013, true);
    let dot_fr = c.front.x as i128 * c.right.x as i128 + c.front.y as i128 * c.right.y as i128
        + c.front.z as i128 * c.right.z as i128;
    let dot_fu = c.front.x as i128 * c.up.x as i128 + c.front.y as i128 * c.up.y as i128
        + c.front.z as i128 * c.up.z as i128;
    let dot_ru = c.right.x as i128 * c.up.x as i128 + c.right.y as i128 * c.up.y as i128
        + c.right.z as i128 * c.up.z as i128;
    assert_eq!(dot_fr, 0);
    assert_eq!(dot_fu, 0);
    assert_eq!(dot_ru, 0);
}
