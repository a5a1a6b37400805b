//! The camera: a motor transform plus projection scalars, advanced once
//! per frame from a snapshot of the movement keys and the elapsed time.
//!
//! A tick sums unit contributions of the active flags into a local
//! movement vector; if its squared magnitude is at most a small epsilon
//! the transform is left untouched, otherwise the vector is normalized,
//! scaled by the movement speed and the delta time, and composed onto the
//! transform from the right — movement is camera-relative, not
//! world-relative, and that operand order is deliberate.

use crate::fixed::{
    euclid_div, int_sqrt, isqrt, lemma_div_bound, lemma_int_sqrt_bounds, wide_mul, COMPONENT_LIMIT,
    SCALE,
};
use crate::math::{
    motor_apply, motor_in_range, motor_translation, sdiv, vec3_in_range, Motor, Vec3View, Vector3,
};
use vstd::prelude::*;

verus! {

/// Movement speed: three units per second, in fixed point.
pub const CAMERA_SPEED: i64 = 3 * SCALE;

/// Threshold on the squared magnitude of the movement vector (fixed
/// point): at or below it a tick moves nothing, which also avoids a
/// division by zero in the normalization.
pub const MOVEMENT_EPSILON: i64 = 65;

/// Upper bound on one frame's delta time: a minute, in fixed-point
/// seconds.
pub const MAX_DELTA_TIME: i64 = 60 * SCALE;

/// Snapshot of the active movement directions, one flag per direction
/// along the camera's local axes.
#[derive(Clone, Copy, PartialEq, Eq, Structural, Debug)]
pub struct MovementInput {
    pub forward: bool,
    pub backward: bool,
    pub left: bool,
    pub right: bool,
    pub down: bool,
    pub up: bool,
}

impl MovementInput {
    /// No key held.
    pub fn none() -> (r: MovementInput)
        ensures
            r == (MovementInput {
                forward: false,
                backward: false,
                left: false,
                right: false,
                down: false,
                up: false,
            }),
    {
        MovementInput {
            forward: false,
            backward: false,
            left: false,
            right: false,
            down: false,
            up: false,
        }
    }
}

/// The local movement vector a flag snapshot produces: one unit along
/// +x for forward and -x for backward, +y for up and -y for down, +z for
/// right and -z for left; opposite flags cancel.
pub open spec fn movement_vector(input: MovementInput) -> Vec3View {
    Vec3View {
        x: (if input.forward {
            SCALE as int
        } else {
            0
        }) - (if input.backward {
            SCALE as int
        } else {
            0
        }),
        y: (if input.up {
            SCALE as int
        } else {
            0
        }) - (if input.down {
            SCALE as int
        } else {
            0
        }),
        z: (if input.right {
            SCALE as int
        } else {
            0
        }) - (if input.left {
            SCALE as int
        } else {
            0
        }),
    }
}

/// Squared magnitude of the movement vector, brought back to scale.
pub open spec fn movement_mag2(input: MovementInput) -> int {
    let v = movement_vector(input);
    sdiv(v.x * v.x + v.y * v.y + v.z * v.z)
}

/// Fixed-point length of the movement vector.
pub open spec fn movement_norm(input: MovementInput) -> int {
    int_sqrt((movement_mag2(input) * (SCALE as int)) as nat) as int
}

/// The displacement one tick applies: the movement vector normalized,
/// then scaled by the speed, then by the delta time.
pub open spec fn camera_displacement(input: MovementInput, dt: int) -> Vec3View {
    let v = movement_vector(input);
    let norm = movement_norm(input);
    Vec3View {
        x: sdiv(sdiv(((v.x * (SCALE as int)) / norm) * (CAMERA_SPEED as int)) * dt),
        y: sdiv(sdiv(((v.y * (SCALE as int)) / norm) * (CAMERA_SPEED as int)) * dt),
        z: sdiv(sdiv(((v.z * (SCALE as int)) / norm) * (CAMERA_SPEED as int)) * dt),
    }
}

/// The camera: its motor transform and the projection scalars the
/// rendering backend reads. Only `update` changes the transform; the
/// projection scalars change only on resize, which stores them as given.
pub struct CameraController {
    pub transform: Motor,
    pub aspect: i64,
    pub near_clip: i64,
    pub far_clip: i64,
}

impl CameraController {
    /// A camera at the given transform with the given projection scalars.
    pub fn new(transform: Motor, aspect: i64, near_clip: i64, far_clip: i64) -> (c:
        CameraController)
        ensures
            c.transform == transform,
            c.aspect == aspect,
            c.near_clip == near_clip,
            c.far_clip == far_clip,
    {
        CameraController { transform, aspect, near_clip, far_clip }
    }

    /// Store a new aspect ratio; resize handling owns this value.
    pub fn set_aspect(&mut self, aspect: i64)
        ensures
            final(self).aspect == aspect,
            final(self).transform == old(self).transform,
            final(self).near_clip == old(self).near_clip,
            final(self).far_clip == old(self).far_clip,
    {
        self.aspect = aspect;
    }

    /// One tick: below the epsilon the transform is untouched (in
    /// particular, with no flag held it never changes, whatever `dt`);
    /// otherwise the normalized, speed- and time-scaled displacement is
    /// right-composed onto the transform as a camera-relative translation.
    pub fn update(&mut self, input: MovementInput, dt: i64)
        requires
            0 <= dt <= MAX_DELTA_TIME,
            motor_in_range(old(self).transform@),
        ensures
            final(self).aspect == old(self).aspect,
            final(self).near_clip == old(self).near_clip,
            final(self).far_clip == old(self).far_clip,
            movement_mag2(input) <= MOVEMENT_EPSILON ==> final(self).transform == old(
                self,
            ).transform,
            movement_mag2(input) > MOVEMENT_EPSILON ==> final(self).transform@ == motor_apply(
                old(self).transform@,
                motor_translation(camera_displacement(input, dt as int)),
            ),
    {
        let mut x: i64 = 0;
        let mut y: i64 = 0;
        let mut z: i64 = 0;
        if input.forward {
            x = x + SCALE;
        }
        if input.backward {
            x = x - SCALE;
        }
        if input.left {
            z = z - SCALE;
        }
        if input.right {
            z = z + SCALE;
        }
        if input.down {
            y = y - SCALE;
        }
        if input.up {
            y = y + SCALE;
        }
        let ghost v = movement_vector(input);
        assert(x == v.x && y == v.y && z == v.z);

        let sqx: i128 = wide_mul(x, x);
        let sqy: i128 = wide_mul(y, y);
        let sqz: i128 = wide_mul(z, z);
        proof {
            assert(sqx == 0 || sqx == 0x1_0000_0000) by (nonlinear_arith)
                requires
                    sqx == x as int * x as int,
                    x == 0 || x == 65536 || x == -65536,
            ;
            assert(sqy == 0 || sqy == 0x1_0000_0000) by (nonlinear_arith)
                requires
                    sqy == y as int * y as int,
                    y == 0 || y == 65536 || y == -65536,
            ;
            assert(sqz == 0 || sqz == 0x1_0000_0000) by (nonlinear_arith)
                requires
                    sqz == z as int * z as int,
                    z == 0 || z == 65536 || z == -65536,
            ;
        }
        let sq: i128 = sqx + sqy + sqz;
        let mag2: i128 = euclid_div(sq, SCALE as i128);
        assert(mag2 == movement_mag2(input));
        assert(mag2 == 0 || mag2 == 65536 || mag2 == 131072 || mag2 == 196608);

        if mag2 > MOVEMENT_EPSILON as i128 {
            let n64: u64 = (mag2 * (SCALE as i128)) as u64;
            let norm_exec: u64 = isqrt(n64);
            let norm: i128 = norm_exec as i128;
            proof {
                lemma_int_sqrt_bounds(n64 as nat);
                assert(norm * norm <= n64 && n64 < (norm + 1) * (norm + 1));
                assert(norm >= SCALE) by (nonlinear_arith)
                    requires
                        n64 >= 0x1_0000_0000,
                        n64 < (norm + 1) * (norm + 1),
                        norm >= 0,
                        SCALE == 65536,
                ;
                assert(norm <= 0x2_0000) by (nonlinear_arith)
                    requires
                        norm * norm <= n64,
                        n64 <= 0x3_0000_0000,
                        norm >= 0,
                ;
            }
            let sx = scale_component(x, norm, dt);
            let sy = scale_component(y, norm, dt);
            let sz = scale_component(z, norm, dt);
            let offset = Vector3 { x: sx, y: sy, z: sz };
            let motor = Motor::translation(offset);
            self.transform = self.transform.apply(motor);
        }
    }
}

/// Normalize one movement component by the vector's length, then scale it
/// by the speed and the delta time.
fn scale_component(c: i64, norm: i128, dt: i64) -> (r: i64)
    requires
        -SCALE <= c <= SCALE,
        SCALE <= norm <= 0x2_0000,
        0 <= dt <= MAX_DELTA_TIME,
    ensures
        r == sdiv(sdiv(((c as int * (SCALE as int)) / (norm as int)) * (CAMERA_SPEED as int)) * (
        dt as int)),
        -COMPONENT_LIMIT <= r <= COMPONENT_LIMIT,
{
    let cs: i128 = (c as i128) * (SCALE as i128);
    let nx: i128 = euclid_div(cs, norm);
    proof {
        lemma_div_bound(cs as int, 0x1_0000_0000, norm as int);
        vstd::arithmetic::div_mod::lemma_div_is_ordered_by_denominator(
            0x1_0000_0000,
            SCALE as int,
            norm as int,
        );
        assert(-0x1_0001 <= nx <= 0x1_0000);
    }
    let t1: i128 = euclid_div(nx * (CAMERA_SPEED as i128), SCALE as i128);
    proof {
        lemma_div_bound(nx as int * (CAMERA_SPEED as int), 0x3_0003_0000, SCALE as int);
        assert(-0x3_0004 <= t1 <= 0x3_0003);
    }
    proof {
        assert(-0xb4_00f0_0000 <= t1 as int * (dt as int) <= 0xb4_00f0_0000) by (nonlinear_arith)
            requires
                -0x3_0004 <= t1 <= 0x3_0003,
                0 <= dt <= 0x3c_0000,
        ;
        lemma_div_bound(t1 as int * (dt as int), 0xb4_00f0_0000, SCALE as int);
    }
    let t2: i128 = euclid_div(t1 * (dt as i128), SCALE as i128);
    t2 as i64
}

} // verus!
