use block_game::camera::{CameraController, MovementInput, MAX_DELTA_TIME};
use block_game::fixed::{euclid_div, isqrt, SCALE};
use block_game::math::{Motor, Vector3};

fn idle() -> MovementInput {
    MovementInput::none()
}

fn start_camera() -> CameraController {
    let transform = Motor::translation(Vector3 { x: -2 * SCALE, y: 0, z: 0 });
    CameraController::new(transform, SCALE, 655, 100 * SCALE)
}

#[test]
fn idle_input_leaves_the_transform_unchanged() {
    let mut cam = start_camera();
    let before = cam.transform;
    cam.update(idle(), 0);
    assert_eq!(cam.transform, before);
    cam.update(idle(), SCALE);
    assert_eq!(cam.transform, before);
    cam.update(idle(), MAX_DELTA_TIME);
    assert_eq!(cam.transform, before);
}

#[test]
fn opposite_flags_cancel() {
    let mut cam = start_camera();
    let before = cam.transform;
    let mut input = idle();
    input.forward = true;
    input.backward = true;
    cam.update(input, SCALE);
    assert_eq!(cam.transform, before);
}

#[test]
fn forward_for_one_second_moves_three_units() {
    let mut cam = start_camera();
    let before = cam.transform;
    let mut input = idle();
    input.forward = true;
    cam.update(input, SCALE);
    let expected = before.apply(Motor::translation(Vector3 { x: 3 * SCALE, y: 0, z: 0 }));
    assert_eq!(cam.transform, expected);
}

#[test]
fn update_scales_with_delta_time() {
    let mut cam = start_camera();
    let before = cam.transform;
    let mut input = idle();
    input.up = true;
    cam.update(input, SCALE / 2);
    let expected = before.apply(Motor::translation(Vector3 { x: 0, y: 3 * SCALE / 2, z: 0 }));
    assert_eq!(cam.transform, expected);
}

#[test]
fn diagonal_movement_is_normalized() {
    let mut cam = start_camera();
    let before = cam.transform;
    let mut input = idle();
    input.forward = true;
    input.right = true;
    cam.update(input, SCALE);
    // |v| = sqrt(2): each component becomes S^2 / isqrt(2 * S^2), then
    // times speed and dt (both exact multiples of the scale here).
    let norm = isqrt(2 * (SCALE as u64) * (SCALE as u64)) as i128;
    let nx = euclid_div((SCALE as i128) * (SCALE as i128), norm);
    let scaled = (nx * 3) as i64;
    let expected = before.apply(Motor::translation(Vector3 { x: scaled, y: 0, z: scaled }));
    assert_eq!(cam.transform, expected);
}

#[test]
fn update_does_not_touch_projection_scalars() {
    let mut cam = start_camera();
    let mut input = idle();
    input.backward = true;
    cam.update(input, SCALE);
    assert_eq!(cam.aspect, SCALE);
    assert_eq!(cam.near_clip, 655);
    assert_eq!(cam.far_clip, 100 * SCALE);
}

#[test]
fn set_aspect_stores_the_ratio() {
    let mut cam = start_camera();
    cam.set_aspect(2 * SCALE);
    assert_eq!(cam.aspect, 2 * SCALE);
}

#[test]
fn isqrt_floors_the_square_root() {
    assert_eq!(isqrt(0), 0);
    assert_eq!(isqrt(1), 1);
    assert_eq!(isqrt(3), 1);
    assert_eq!(isqrt(4), 2);
    assert_eq!(isqrt(4294967296), 65536);
    assert_eq!(isqrt(2 * 4294967296), 92681);
    assert_eq!(isqrt(3 * 4294967296), 113511);
    assert_eq!(isqrt(u64::MAX), 4294967295);
}

#[test]
fn euclid_div_rounds_toward_minus_infinity() {
    assert_eq!(euclid_div(7, 2), 3);
    assert_eq!(euclid_div(-7, 2), -4);
    assert_eq!(euclid_div(-8, 2), -4);
    assert_eq!(euclid_div(0, 65536), 0);
    assert_eq!(euclid_div(65536, 65536), 1);
    assert_eq!(euclid_div(-1, 65536), -1);
}
