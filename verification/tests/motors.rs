use block_game::fixed::SCALE;
use block_game::math::{MathError, Motor, Point, Vector3};

#[test]
fn identity_motor_components() {
    let m = Motor::identity();
    assert_eq!(m.s, SCALE);
    assert_eq!(m.e12, 0);
    assert_eq!(m.e13, 0);
    assert_eq!(m.e23, 0);
    assert_eq!(m.e01, 0);
    assert_eq!(m.e02, 0);
    assert_eq!(m.e03, 0);
    assert_eq!(m.e0123, 0);
}

#[test]
fn translation_halves_the_offset() {
    let m = Motor::translation(Vector3 { x: 2 * SCALE, y: 4 * SCALE, z: -6 * SCALE });
    assert_eq!(m.s, SCALE);
    assert_eq!(m.e01, -SCALE);
    assert_eq!(m.e02, -2 * SCALE);
    assert_eq!(m.e03, 3 * SCALE);
    assert_eq!(m.e12, 0);
    assert_eq!(m.e0123, 0);
}

#[test]
fn translations_compose_additively() {
    let v = Vector3 { x: 2 * SCALE, y: 4 * SCALE, z: 6 * SCALE };
    let w = Vector3 { x: 4 * SCALE, y: 2 * SCALE, z: -8 * SCALE };
    let sum = Vector3 { x: 6 * SCALE, y: 6 * SCALE, z: -2 * SCALE };
    let composed = Motor::translation(v).apply(Motor::translation(w));
    assert_eq!(composed, Motor::translation(sum));
}

#[test]
fn same_plane_rotations_compose_by_angle_addition() {
    let (c1, s1) = (60000i64, 26000i64);
    let (c2, s2) = (50000i64, 40000i64);
    let composed = Motor::rotation_xy(c1, s1).apply(Motor::rotation_xy(c2, s2));
    let cos_sum = ((c1 as i128 * c2 as i128 - s1 as i128 * s2 as i128) / 65536) as i64;
    let sin_sum = ((c1 as i128 * s2 as i128 + s1 as i128 * c2 as i128) / 65536) as i64;
    assert_eq!(composed, Motor::rotation_xy(cos_sum, sin_sum));
}

#[test]
fn rotation_constructors_fill_their_plane() {
    let m = Motor::rotation_xz(123, 456);
    assert_eq!((m.s, m.e12, m.e13, m.e23), (123, 0, 456, 0));
    let m = Motor::rotation_yz(123, 456);
    assert_eq!((m.s, m.e12, m.e13, m.e23), (123, 0, 0, 456));
}

#[test]
fn unit_translation_times_its_inverse_is_identity() {
    let m = Motor::translation(Vector3 { x: 2 * SCALE, y: 4 * SCALE, z: 6 * SCALE });
    assert_eq!(m.apply(m.inverse()), Motor::identity());
}

#[test]
fn unit_rotation_times_its_inverse_is_identity() {
    // A half-turn in the xy plane: cos = 0, sin = 1, exactly unit norm.
    let m = Motor::rotation_xy(0, SCALE);
    assert_eq!(m.apply(m.inverse()), Motor::identity());
    // A rotation composed with a translation is still unit.
    let t = Motor::translation(Vector3 { x: 2 * SCALE, y: 0, z: -4 * SCALE });
    let combined = t.apply(m);
    assert_eq!(combined.apply(combined.inverse()), Motor::identity());
}

#[test]
fn inverse_negates_the_bivectors() {
    let m = Motor { s: 10, e12: 20, e13: 30, e23: 40, e01: 50, e02: 60, e03: 70, e0123: 80 };
    let inv = m.inverse();
    assert_eq!(inv.s, 10);
    assert_eq!(inv.e12, -20);
    assert_eq!(inv.e13, -30);
    assert_eq!(inv.e23, -40);
    assert_eq!(inv.e01, -50);
    assert_eq!(inv.e02, -60);
    assert_eq!(inv.e03, -70);
    assert_eq!(inv.e0123, 80);
}

#[test]
fn pre_apply_reverses_the_order() {
    let a = Motor::translation(Vector3 { x: 2 * SCALE, y: 0, z: 0 });
    let b = Motor::rotation_xy(0, SCALE);
    assert_eq!(a.pre_apply(b), b.apply(a));
}

#[test]
fn point_embedding_round_trips_through_identity() {
    let v = Vector3 { x: 3 * SCALE, y: -2 * SCALE, z: 5 * SCALE };
    let p = Point::from_vector(v);
    assert_eq!(p.e023, v.x);
    assert_eq!(p.e013, -v.y);
    assert_eq!(p.e012, v.z);
    assert_eq!(p.e123, SCALE);
    let q = p.transform(Motor::identity());
    assert_eq!(q, p);
    assert_eq!(q.to_vector(), Ok(v));
}

#[test]
fn zero_weight_point_is_degenerate() {
    let p = Point { e012: 100, e013: 200, e023: 300, e123: 0 };
    assert_eq!(p.to_vector(), Err(MathError::DegenerateTransform));
}

#[test]
fn translation_moves_the_origin() {
    // Transforming the origin by a translation motor lands on the offset.
    let v = Vector3 { x: 2 * SCALE, y: 4 * SCALE, z: -6 * SCALE };
    let m = Motor::translation(v);
    let moved = Point::identity().transform(m);
    assert_eq!(moved.to_vector(), Ok(v));
}
