//! Projective-geometric-algebra points and motors over fixed-point scalars.
//!
//! A `Motor` encodes a rigid transform (rotation plus translation) in the
//! eight grades (scalar, three rotation bivectors, three translation
//! bivectors, pseudoscalar); a `Point` is a homogeneous point held as a
//! trivector whose `e123` component is the weight. Composition is the
//! geometric product, written out in closed form; applying a motor to a
//! point is the sandwich product. Scalars are fixed point at `SCALE`
//! (see the fixed module), so every formula divides a product sum by the
//! scale once per product order.

use crate::fixed::{euclid_div, wide_mul, wide_mul3, COMPONENT_LIMIT, SCALE, SCALE_SQ};
use vstd::prelude::*;

verus! {

/// Mathematical value of a fixed-point 3-vector.
pub ghost struct Vec3View {
    pub x: int,
    pub y: int,
    pub z: int,
}

/// Mathematical value of a `Point`.
pub ghost struct PointView {
    pub e012: int,
    pub e013: int,
    pub e023: int,
    pub e123: int,
}

/// Mathematical value of a `Motor`.
pub ghost struct MotorView {
    pub s: int,
    pub e12: int,
    pub e13: int,
    pub e23: int,
    pub e01: int,
    pub e02: int,
    pub e03: int,
    pub e0123: int,
}

/// A Euclidean 3-vector in fixed point.
#[derive(Clone, Copy, PartialEq, Eq, Structural, Debug)]
pub struct Vector3 {
    pub x: i64,
    pub y: i64,
    pub z: i64,
}

/// A homogeneous point: a trivector with weight component `e123`.
#[derive(Clone, Copy, PartialEq, Eq, Structural, Debug)]
pub struct Point {
    pub e012: i64,
    pub e013: i64,
    pub e023: i64,
    pub e123: i64,
}

/// A rigid transform: scalar, rotation bivectors (`e12`, `e13`, `e23`),
/// translation bivectors (`e01`, `e02`, `e03`), pseudoscalar.
#[derive(Clone, Copy, PartialEq, Eq, Structural, Debug)]
pub struct Motor {
    pub s: i64,
    pub e12: i64,
    pub e13: i64,
    pub e23: i64,
    pub e01: i64,
    pub e02: i64,
    pub e03: i64,
    pub e0123: i64,
}

impl View for Vector3 {
    type V = Vec3View;

    open spec fn view(&self) -> Vec3View {
        Vec3View { x: self.x as int, y: self.y as int, z: self.z as int }
    }
}

impl View for Point {
    type V = PointView;

    open spec fn view(&self) -> PointView {
        PointView {
            e012: self.e012 as int,
            e013: self.e013 as int,
            e023: self.e023 as int,
            e123: self.e123 as int,
        }
    }
}

impl View for Motor {
    type V = MotorView;

    open spec fn view(&self) -> MotorView {
        MotorView {
            s: self.s as int,
            e12: self.e12 as int,
            e13: self.e13 as int,
            e23: self.e23 as int,
            e01: self.e01 as int,
            e02: self.e02 as int,
            e03: self.e03 as int,
            e0123: self.e0123 as int,
        }
    }
}

/// Bring a sum of products of two scalars back to scale.
pub open spec fn sdiv(x: int) -> int {
    x / (SCALE as int)
}

/// Bring a sum of products of three scalars back to scale.
pub open spec fn sdiv2(x: int) -> int {
    x / (SCALE as int * SCALE as int)
}

/// All components within the working envelope of the motor operations.
pub open spec fn vec3_in_range(v: Vec3View) -> bool {
    &&& -COMPONENT_LIMIT <= v.x <= COMPONENT_LIMIT
    &&& -COMPONENT_LIMIT <= v.y <= COMPONENT_LIMIT
    &&& -COMPONENT_LIMIT <= v.z <= COMPONENT_LIMIT
}

/// All components within the working envelope of the motor operations.
pub open spec fn point_in_range(p: PointView) -> bool {
    &&& -COMPONENT_LIMIT <= p.e012 <= COMPONENT_LIMIT
    &&& -COMPONENT_LIMIT <= p.e013 <= COMPONENT_LIMIT
    &&& -COMPONENT_LIMIT <= p.e023 <= COMPONENT_LIMIT
    &&& -COMPONENT_LIMIT <= p.e123 <= COMPONENT_LIMIT
}

/// All components within the working envelope of the motor operations.
pub open spec fn motor_in_range(m: MotorView) -> bool {
    &&& -COMPONENT_LIMIT <= m.s <= COMPONENT_LIMIT
    &&& -COMPONENT_LIMIT <= m.e12 <= COMPONENT_LIMIT
    &&& -COMPONENT_LIMIT <= m.e13 <= COMPONENT_LIMIT
    &&& -COMPONENT_LIMIT <= m.e23 <= COMPONENT_LIMIT
    &&& -COMPONENT_LIMIT <= m.e01 <= COMPONENT_LIMIT
    &&& -COMPONENT_LIMIT <= m.e02 <= COMPONENT_LIMIT
    &&& -COMPONENT_LIMIT <= m.e03 <= COMPONENT_LIMIT
    &&& -COMPONENT_LIMIT <= m.e0123 <= COMPONENT_LIMIT
}

/// The neutral transform: scalar one, everything else zero.
pub open spec fn motor_identity() -> MotorView {
    MotorView {
        s: SCALE as int,
        e12: 0,
        e13: 0,
        e23: 0,
        e01: 0,
        e02: 0,
        e03: 0,
        e0123: 0,
    }
}

/// A pure displacement by `v`: minus half the vector in the translation
/// bivectors, scalar one.
pub open spec fn motor_translation(v: Vec3View) -> MotorView {
    MotorView {
        s: SCALE as int,
        e12: 0,
        e13: 0,
        e23: 0,
        e01: (-v.x) / 2,
        e02: (-v.y) / 2,
        e03: (-v.z) / 2,
        e0123: 0,
    }
}

/// A pure rotation in the xy plane, given the half-angle cosine and sine.
pub open spec fn motor_rotation_xy(cos_half: int, sin_half: int) -> MotorView {
    MotorView {
        s: cos_half,
        e12: sin_half,
        e13: 0,
        e23: 0,
        e01: 0,
        e02: 0,
        e03: 0,
        e0123: 0,
    }
}

/// A pure rotation in the xz plane, given the half-angle cosine and sine.
pub open spec fn motor_rotation_xz(cos_half: int, sin_half: int) -> MotorView {
    MotorView {
        s: cos_half,
        e12: 0,
        e13: sin_half,
        e23: 0,
        e01: 0,
        e02: 0,
        e03: 0,
        e0123: 0,
    }
}

/// A pure rotation in the yz plane, given the half-angle cosine and sine.
pub open spec fn motor_rotation_yz(cos_half: int, sin_half: int) -> MotorView {
    MotorView {
        s: cos_half,
        e12: 0,
        e13: 0,
        e23: sin_half,
        e01: 0,
        e02: 0,
        e03: 0,
        e0123: 0,
    }
}

/// The geometric product of two motors: the closed-form expansion of
/// `m1 * m2` over the eight basis grades.
pub open spec fn motor_apply(m1: MotorView, m2: MotorView) -> MotorView {
    let a = m1.s;
    let b = m1.e12;
    let c = m1.e13;
    let d = m1.e23;
    let e = m1.e01;
    let f = m1.e02;
    let g = m1.e03;
    let h = m1.e0123;
    let i = m2.s;
    let j = m2.e12;
    let k = m2.e13;
    let l = m2.e23;
    let m = m2.e01;
    let n = m2.e02;
    let o = m2.e03;
    let p = m2.e0123;
    MotorView {
        s: sdiv(a * i - b * j - c * k - d * l),
        e12: sdiv(a * j + b * i + d * k - c * l),
        e13: sdiv(a * k + b * l + c * i - d * j),
        e23: sdiv(a * l + c * j + d * i - b * k),
        e01: sdiv(a * m + b * n + c * o + e * i - d * p - f * j - g * k - h * l),
        e02: sdiv(a * n + c * p + d * o + e * j + f * i + h * k - b * m - g * l),
        e03: sdiv(a * o + e * k + f * l + g * i - b * p - c * m - d * n - h * j),
        e0123: sdiv(a * p + b * o + d * m + e * l + g * j + h * i - c * n - f * k),
    }
}

/// Reversion: negates the six bivector components. For a unit motor this
/// is the group inverse.
pub open spec fn motor_inverse(m: MotorView) -> MotorView {
    MotorView {
        s: m.s,
        e12: -m.e12,
        e13: -m.e13,
        e23: -m.e23,
        e01: -m.e01,
        e02: -m.e02,
        e03: -m.e03,
        e0123: m.e0123,
    }
}

/// A unit motor: the rotation block has norm one, and the scalar and
/// pseudoscalar blocks satisfy the Study condition. Every motor built
/// from rotations and translations satisfies both.
pub open spec fn motor_is_unit(m: MotorView) -> bool {
    &&& m.s * m.s + m.e12 * m.e12 + m.e13 * m.e13 + m.e23 * m.e23 == (SCALE as int) * (
    SCALE as int)
    &&& m.s * m.e0123 + m.e13 * m.e02 - m.e12 * m.e03 - m.e23 * m.e01 == 0
}

/// The origin: weight one, all axis components zero.
pub open spec fn point_identity() -> PointView {
    PointView { e012: 0, e013: 0, e023: 0, e123: SCALE as int }
}

/// Embed a Euclidean vector as a homogeneous point of weight one.
pub open spec fn point_from_vector(v: Vec3View) -> PointView {
    PointView { e012: v.z, e013: -v.y, e023: v.x, e123: SCALE as int }
}

/// Project a point back to a Euclidean vector by dividing the axis
/// components by the weight. Meaningful only when the weight is not zero.
pub open spec fn vector_of_point(p: PointView) -> Vec3View {
    Vec3View {
        x: (p.e023 * SCALE) / p.e123,
        y: (-p.e013 * SCALE) / p.e123,
        z: (p.e012 * SCALE) / p.e123,
    }
}

/// The sandwich product `m * p * reverse(m)`: the point transformed by
/// the motor, written out in closed form.
pub open spec fn point_transform(p: PointView, mo: MotorView) -> PointView {
    let a = mo.s;
    let b = mo.e12;
    let c = mo.e13;
    let d = mo.e23;
    let e = mo.e01;
    let f = mo.e02;
    let g = mo.e03;
    let h = mo.e0123;
    let i = p.e012;
    let j = p.e013;
    let k = p.e023;
    let l = p.e123;
    PointView {
        e012: sdiv2(
            a * a * i + b * b * i + 2 * (a * c * k) + 2 * (b * d * k) + 2 * (b * c * j) - 2 * (a
                * d * j) - 2 * (a * g * l) - 2 * (d * f * l) - 2 * (b * h * l) - 2 * (c * e * l)
                - d * d * i - c * c * i,
        ),
        e013: sdiv2(
            a * a * j + c * c * j + 2 * (b * c * i) + 2 * (b * e * l) + 2 * (a * d * i) + 2 * (a
                * f * l) + 2 * (c * d * k) - 2 * (a * b * k) - 2 * (c * h * l) - 2 * (d * g * l)
                - b * b * j - d * d * j,
        ),
        e023: sdiv2(
            a * a * k + d * d * k + 2 * (a * b * j) + 2 * (c * d * j) + 2 * (c * g * l) + 2 * (b
                * f * l) + 2 * (b * d * i) - 2 * (a * c * i) - 2 * (a * e * l) - 2 * (d * h * l)
                - c * c * k - b * b * k,
        ),
        e123: sdiv2(a * a * l + b * b * l + c * c * l + d * d * l),
    }
}

/// Fails when a point with zero homogeneous weight is projected back to a
/// Euclidean vector: such a point lies at infinity.
#[derive(Clone, Copy, PartialEq, Eq, Structural, Debug)]
pub enum MathError {
    DegenerateTransform,
}

impl Point {
    /// The origin: weight one, all axis components zero.
    pub fn identity() -> (p: Point)
        ensures
            p@ == point_identity(),
    {
        Point { e012: 0, e013: 0, e023: 0, e123: SCALE }
    }

    /// Embed a Euclidean vector as a homogeneous point of weight one.
    pub fn from_vector(v: Vector3) -> (p: Point)
        requires
            vec3_in_range(v@),
        ensures
            p@ == point_from_vector(v@),
            point_in_range(p@),
    {
        Point { e012: v.z, e013: -v.y, e023: v.x, e123: SCALE }
    }

    /// Project the point back to a Euclidean vector; fails exactly when
    /// the homogeneous weight is zero.
    pub fn to_vector(self) -> (r: Result<Vector3, MathError>)
        requires
            point_in_range(self@),
        ensures
            self.e123 == 0 <==> r is Err,
            r is Err ==> r == Err::<Vector3, MathError>(MathError::DegenerateTransform),
            r is Ok ==> r->Ok_0@ == vector_of_point(self@),
    {
        if self.e123 == 0 {
            Err(MathError::DegenerateTransform)
        } else {
            let x = scaled_ratio(self.e023, self.e123);
            let y = scaled_ratio(-self.e013, self.e123);
            let z = scaled_ratio(self.e012, self.e123);
            Ok(Vector3 { x, y, z })
        }
    }

    /// The sandwich product: this point transformed by the motor. A zero
    /// weight component of the result marks a point at infinity; callers
    /// must treat that as an error state rather than convert it.
    pub fn transform(self, motor: Motor) -> (r: Point)
        requires
            point_in_range(self@),
            motor_in_range(motor@),
        ensures
            r@ == point_transform(self@, motor@),
    {
        let a = motor.s;
        let b = motor.e12;
        let c = motor.e13;
        let d = motor.e23;
        let e = motor.e01;
        let f = motor.e02;
        let g = motor.e03;
        let h = motor.e0123;
        let i = self.e012;
        let j = self.e013;
        let k = self.e023;
        let l = self.e123;

        let n012: i128 = wide_mul3(a, a, i) + wide_mul3(b, b, i) + 2 * wide_mul3(a, c, k) + 2
            * wide_mul3(b, d, k) + 2 * wide_mul3(b, c, j) - 2 * wide_mul3(a, d, j) - 2 * wide_mul3(
            a,
            g,
            l,
        ) - 2 * wide_mul3(d, f, l) - 2 * wide_mul3(b, h, l) - 2 * wide_mul3(c, e, l) - wide_mul3(
            d,
            d,
            i,
        ) - wide_mul3(c, c, i);
        let n013: i128 = wide_mul3(a, a, j) + wide_mul3(c, c, j) + 2 * wide_mul3(b, c, i) + 2
            * wide_mul3(b, e, l) + 2 * wide_mul3(a, d, i) + 2 * wide_mul3(a, f, l) + 2 * wide_mul3(
            c,
            d,
            k,
        ) - 2 * wide_mul3(a, b, k) - 2 * wide_mul3(c, h, l) - 2 * wide_mul3(d, g, l) - wide_mul3(
            b,
            b,
            j,
        ) - wide_mul3(d, d, j);
        let n023: i128 = wide_mul3(a, a, k) + wide_mul3(d, d, k) + 2 * wide_mul3(a, b, j) + 2
            * wide_mul3(c, d, j) + 2 * wide_mul3(c, g, l) + 2 * wide_mul3(b, f, l) + 2 * wide_mul3(
            b,
            d,
            i,
        ) - 2 * wide_mul3(a, c, i) - 2 * wide_mul3(a, e, l) - 2 * wide_mul3(d, h, l) - wide_mul3(
            c,
            c,
            k,
        ) - wide_mul3(b, b, k);
        let n123: i128 = wide_mul3(a, a, l) + wide_mul3(b, b, l) + wide_mul3(c, c, l) + wide_mul3(
            d,
            d,
            l,
        );

        Point {
            e012: rescale2(n012),
            e013: rescale2(n013),
            e023: rescale2(n023),
            e123: rescale2(n123),
        }
    }
}

/// Divide a sum of degree-two products by the scale and narrow it back to
/// a component.
fn rescale(n: i128) -> (r: i64)
    requires
        -0x4000_0000_0000_0000 <= n <= 0x4000_0000_0000_0000,
    ensures
        r == sdiv(n as int),
{
    let q = euclid_div(n, SCALE as i128);
    proof {
        crate::fixed::lemma_div_bound(n as int, 0x4000_0000_0000_0000, SCALE as int);
    }
    q as i64
}

/// Divide a sum of degree-three products by the scale squared and narrow
/// it back to a component.
fn rescale2(n: i128) -> (r: i64)
    requires
        -0x1000_0000_0000_0000_0000_0000 <= n <= 0x1000_0000_0000_0000_0000_0000,
    ensures
        r == sdiv2(n as int),
{
    let q = euclid_div(n, SCALE_SQ);
    proof {
        crate::fixed::lemma_div_bound(n as int, 0x1000_0000_0000_0000_0000_0000, SCALE_SQ as int);
        assert(SCALE as int * SCALE as int == SCALE_SQ as int);
    }
    q as i64
}

/// The Euclidean ratio `(x * SCALE) / w` of two components, the fixed-point
/// division a point projection uses.
fn scaled_ratio(x: i64, w: i64) -> (r: i64)
    requires
        -COMPONENT_LIMIT <= x <= COMPONENT_LIMIT,
        -COMPONENT_LIMIT <= w <= COMPONENT_LIMIT,
        w != 0,
    ensures
        r == (x as int * SCALE) / (w as int),
{
    let n: i128 = (x as i128) * (SCALE as i128);
    if w > 0 {
        euclid_div(n, w as i128) as i64
    } else {
        let q = euclid_div(n, -(w as i128));
        proof {
            crate::fixed::lemma_div_negative_divisor(n as int, w as int);
        }
        (-q) as i64
    }
}

impl Motor {
    /// The neutral transform: scalar one, everything else zero.
    pub fn identity() -> (m: Motor)
        ensures
            m@ == motor_identity(),
            motor_in_range(m@),
            motor_is_unit(m@),
    {
        Motor { s: SCALE, e12: 0, e13: 0, e23: 0, e01: 0, e02: 0, e03: 0, e0123: 0 }
    }

    /// A motor that displaces by `offset`: minus half the vector in the
    /// translation bivectors.
    pub fn translation(offset: Vector3) -> (m: Motor)
        requires
            vec3_in_range(offset@),
        ensures
            m@ == motor_translation(offset@),
            motor_in_range(m@),
    {
        let e01 = euclid_div(-(offset.x as i128), 2) as i64;
        let e02 = euclid_div(-(offset.y as i128), 2) as i64;
        let e03 = euclid_div(-(offset.z as i128), 2) as i64;
        Motor { s: SCALE, e12: 0, e13: 0, e23: 0, e01, e02, e03, e0123: 0 }
    }

    /// A pure rotation in the xy plane; the caller supplies the cosine and
    /// sine of half the rotation angle, in fixed point.
    pub fn rotation_xy(cos_half: i64, sin_half: i64) -> (m: Motor)
        ensures
            m@ == motor_rotation_xy(cos_half as int, sin_half as int),
    {
        Motor { s: cos_half, e12: sin_half, e13: 0, e23: 0, e01: 0, e02: 0, e03: 0, e0123: 0 }
    }

    /// A pure rotation in the xz plane; the caller supplies the cosine and
    /// sine of half the rotation angle, in fixed point.
    pub fn rotation_xz(cos_half: i64, sin_half: i64) -> (m: Motor)
        ensures
            m@ == motor_rotation_xz(cos_half as int, sin_half as int),
    {
        Motor { s: cos_half, e12: 0, e13: sin_half, e23: 0, e01: 0, e02: 0, e03: 0, e0123: 0 }
    }

    /// A pure rotation in the yz plane; the caller supplies the cosine and
    /// sine of half the rotation angle, in fixed point.
    pub fn rotation_yz(cos_half: i64, sin_half: i64) -> (m: Motor)
        ensures
            m@ == motor_rotation_yz(cos_half as int, sin_half as int),
    {
        Motor { s: cos_half, e12: 0, e13: 0, e23: sin_half, e01: 0, e02: 0, e03: 0, e0123: 0 }
    }

    /// The geometric product `self * other`: the two rigid transforms
    /// composed into one (`other` applied first, then `self` in its frame).
    /// Associative, not commutative in general.
    pub fn apply(self, other: Motor) -> (r: Motor)
        requires
            motor_in_range(self@),
            motor_in_range(other@),
        ensures
            r@ == motor_apply(self@, other@),
    {
        let a = self.s;
        let b = self.e12;
        let c = self.e13;
        let d = self.e23;
        let e = self.e01;
        let f = self.e02;
        let g = self.e03;
        let h = self.e0123;
        let i = other.s;
        let j = other.e12;
        let k = other.e13;
        let l = other.e23;
        let m = other.e01;
        let n = other.e02;
        let o = other.e03;
        let p = other.e0123;

        let ns: i128 = wide_mul(a, i) - wide_mul(b, j) - wide_mul(c, k) - wide_mul(d, l);
        let n12: i128 = wide_mul(a, j) + wide_mul(b, i) + wide_mul(d, k) - wide_mul(c, l);
        let n13: i128 = wide_mul(a, k) + wide_mul(b, l) + wide_mul(c, i) - wide_mul(d, j);
        let n23: i128 = wide_mul(a, l) + wide_mul(c, j) + wide_mul(d, i) - wide_mul(b, k);
        let n01: i128 = wide_mul(a, m) + wide_mul(b, n) + wide_mul(c, o) + wide_mul(e, i)
            - wide_mul(d, p) - wide_mul(f, j) - wide_mul(g, k) - wide_mul(h, l);
        let n02: i128 = wide_mul(a, n) + wide_mul(c, p) + wide_mul(d, o) + wide_mul(e, j)
            + wide_mul(f, i) + wide_mul(h, k) - wide_mul(b, m) - wide_mul(g, l);
        let n03: i128 = wide_mul(a, o) + wide_mul(e, k) + wide_mul(f, l) + wide_mul(g, i)
            - wide_mul(b, p) - wide_mul(c, m) - wide_mul(d, n) - wide_mul(h, j);
        let n0123: i128 = wide_mul(a, p) + wide_mul(b, o) + wide_mul(d, m) + wide_mul(e, l)
            + wide_mul(g, j) + wide_mul(h, i) - wide_mul(c, n) - wide_mul(f, k);

        Motor {
            s: rescale(ns),
            e12: rescale(n12),
            e13: rescale(n13),
            e23: rescale(n23),
            e01: rescale(n01),
            e02: rescale(n02),
            e03: rescale(n03),
            e0123: rescale(n0123),
        }
    }

    /// The reversed composition `other * self`: apply `other` before
    /// `self`.
    pub fn pre_apply(self, other: Motor) -> (r: Motor)
        requires
            motor_in_range(self@),
            motor_in_range(other@),
        ensures
            r@ == motor_apply(other@, self@),
    {
        other.apply(self)
    }

    /// Reversion: negate the six bivector components. Equals the group
    /// inverse exactly when the motor is unit norm; feeding a non-unit
    /// motor is a caller obligation, not checked here.
    pub fn inverse(self) -> (r: Motor)
        requires
            motor_in_range(self@),
        ensures
            r@ == motor_inverse(self@),
            motor_in_range(r@),
    {
        Motor {
            s: self.s,
            e12: -self.e12,
            e13: -self.e13,
            e23: -self.e23,
            e01: -self.e01,
            e02: -self.e02,
            e03: -self.e03,
            e0123: self.e0123,
        }
    }
}

/// Componentwise vector sum.
pub open spec fn vec3_sum(v: Vec3View, w: Vec3View) -> Vec3View {
    Vec3View { x: v.x + w.x, y: v.y + w.y, z: v.z + w.z }
}

/// For an even component, halving is exact and commutes with negation.
proof fn lemma_half_even(a: int)
    requires
        a % 2 == 0,
    ensures
        2 * (a / 2) == a,
        (-a) / 2 == -(a / 2),
{
    vstd::arithmetic::div_mod::lemma_fundamental_div_mod(a, 2);
    vstd::arithmetic::div_mod::lemma_fundamental_div_mod_converse_div(-a, 2, -(a / 2), 0);
}

/// Exact halves add: for even `a` and `b`, `(-a)/2 + (-b)/2 == -(a+b)/2`.
proof fn lemma_halves_add(a: int, b: int)
    requires
        a % 2 == 0,
        b % 2 == 0,
    ensures
        (-(a + b)) / 2 == (-a) / 2 + (-b) / 2,
{
    lemma_half_even(a);
    lemma_half_even(b);
    vstd::arithmetic::div_mod::lemma_fundamental_div_mod_converse_div(
        -(a + b),
        2,
        -(a / 2) - (b / 2),
        0,
    );
}

/// Translations compose additively: displacing by `v` and then by `w` is
/// one displacement by `v + w`. Stated for vectors with even components,
/// whose half in the translation bivectors is exact in fixed point.
pub proof fn lemma_translation_compose(v: Vec3View, w: Vec3View)
    requires
        v.x % 2 == 0,
        v.y % 2 == 0,
        v.z % 2 == 0,
        w.x % 2 == 0,
        w.y % 2 == 0,
        w.z % 2 == 0,
    ensures
        motor_apply(motor_translation(v), motor_translation(w)) == motor_translation(
            vec3_sum(v, w),
        ),
{
    broadcast use vstd::arithmetic::div_mod::lemma_div_multiples_vanish;

    let s = SCALE as int;
    let e = (-v.x) / 2;
    let f = (-v.y) / 2;
    let g = (-v.z) / 2;
    let m = (-w.x) / 2;
    let n = (-w.y) / 2;
    let o = (-w.z) / 2;
    assert(s * s == s * (s * 1));
    assert((s * s) / s == s);
    assert(s * m + e * s == s * (m + e));
    assert((s * m + e * s) / s == m + e);
    assert(s * n + f * s == s * (n + f));
    assert((s * n + f * s) / s == n + f);
    assert(s * o + g * s == s * (o + g));
    assert((s * o + g * s) / s == o + g);
    lemma_halves_add(v.x, w.x);
    lemma_halves_add(v.y, w.y);
    lemma_halves_add(v.z, w.z);
}

/// Rotations in one plane compose by angle addition: the composite of two
/// xy rotations is the xy rotation whose half-angle cosine and sine are
/// the cosine and sine addition forms of the operands, each brought back
/// to scale.
pub proof fn lemma_same_plane_rotations_compose(c1: int, s1: int, c2: int, s2: int)
    ensures
        motor_apply(motor_rotation_xy(c1, s1), motor_rotation_xy(c2, s2)) == motor_rotation_xy(
            sdiv(c1 * c2 - s1 * s2),
            sdiv(c1 * s2 + s1 * c2),
        ),
{
    let lhs = motor_apply(motor_rotation_xy(c1, s1), motor_rotation_xy(c2, s2));
    assert(lhs.s == sdiv(c1 * c2 - s1 * s2));
    assert(lhs.e12 == sdiv(c1 * s2 + s1 * c2));
}

/// Composing a unit motor with its reversion yields the identity, exactly:
/// the rotation-norm condition gives the scalar component and the Study
/// condition gives the pseudoscalar; everything else cancels.
pub proof fn lemma_unit_motor_inverse(m: MotorView)
    requires
        motor_is_unit(m),
    ensures
        motor_apply(m, motor_inverse(m)) == motor_identity(),
{
    let a = m.s;
    let b = m.e12;
    let c = m.e13;
    let d = m.e23;
    let e = m.e01;
    let f = m.e02;
    let g = m.e03;
    let h = m.e0123;
    let s = SCALE as int;
    assert(a * a - b * (-b) - c * (-c) - d * (-d) == s * s) by (nonlinear_arith)
        requires
            a * a + b * b + c * c + d * d == s * s,
    ;
    assert(a * (-b) + b * a + d * (-c) - c * (-d) == 0) by (nonlinear_arith);
    assert(a * (-c) + b * (-d) + c * a - d * (-b) == 0) by (nonlinear_arith);
    assert(a * (-d) + c * (-b) + d * a - b * (-c) == 0) by (nonlinear_arith);
    assert(a * (-e) + b * (-f) + c * (-g) + e * a - d * h - f * (-b) - g * (-c) - h * (-d) == 0)
        by (nonlinear_arith);
    assert(a * (-f) + c * h + d * (-g) + e * (-b) + f * a + h * (-c) - b * (-e) - g * (-d) == 0)
        by (nonlinear_arith);
    assert(a * (-g) + e * (-c) + f * (-d) + g * a - b * h - c * (-e) - d * (-f) - h * (-b) == 0)
        by (nonlinear_arith);
    assert(a * h + b * (-g) + d * (-e) + e * (-d) + g * (-b) + h * a - c * (-f) - f * (-c) == 0)
        by (nonlinear_arith)
        requires
            a * h + c * f - b * g - d * e == 0,
    ;
    assert(sdiv(s * s) == s) by {
        broadcast use vstd::arithmetic::div_mod::lemma_div_multiples_vanish;

        assert(s * s == s * (s * 1));
    }
}

/// Embedding a vector as a point, transforming it by the identity motor,
/// and projecting it back is exact: the point is unchanged and the vector
/// comes back as it went in.
#[verifier::rlimit(50)]
pub proof fn lemma_identity_transform_round_trip(v: Vec3View)
    ensures
        point_transform(point_from_vector(v), motor_identity()) == point_from_vector(v),
        vector_of_point(point_transform(point_from_vector(v), motor_identity())) == v,
{
    let s = SCALE as int;
    let p = point_from_vector(v);
    let q = point_transform(p, motor_identity());
    vstd::arithmetic::div_mod::lemma_div_multiples_vanish(p.e012, s * s);
    vstd::arithmetic::div_mod::lemma_div_multiples_vanish(p.e013, s * s);
    vstd::arithmetic::div_mod::lemma_div_multiples_vanish(p.e023, s * s);
    vstd::arithmetic::div_mod::lemma_div_multiples_vanish(p.e123, s * s);
    let mi = motor_identity();
    assert(mi.s * mi.s * p.e012 + mi.e12 * mi.e12 * p.e012 + 2 * (mi.s * mi.e13 * p.e023) + 2 * (
    mi.e12 * mi.e23 * p.e023) + 2 * (mi.e12 * mi.e13 * p.e013) - 2 * (mi.s * mi.e23 * p.e013) - 2
        * (mi.s * mi.e03 * p.e123) - 2 * (mi.e23 * mi.e02 * p.e123) - 2 * (mi.e12 * mi.e0123
        * p.e123) - 2 * (mi.e13 * mi.e01 * p.e123) - mi.e23 * mi.e23 * p.e012 - mi.e13 * mi.e13
        * p.e012 == (s * s) * p.e012) by (nonlinear_arith)
        requires
            mi.s == s,
            mi.e12 == 0,
            mi.e13 == 0,
            mi.e23 == 0,
            mi.e01 == 0,
            mi.e02 == 0,
            mi.e03 == 0,
            mi.e0123 == 0,
    ;
    assert(mi.s * mi.s * p.e013 + mi.e13 * mi.e13 * p.e013 + 2 * (mi.e12 * mi.e13 * p.e012) + 2
        * (mi.e12 * mi.e01 * p.e123) + 2 * (mi.s * mi.e23 * p.e012) + 2 * (mi.s * mi.e02 * p.e123)
        + 2 * (mi.e13 * mi.e23 * p.e023) - 2 * (mi.s * mi.e12 * p.e023) - 2 * (mi.e13 * mi.e0123
        * p.e123) - 2 * (mi.e23 * mi.e03 * p.e123) - mi.e12 * mi.e12 * p.e013 - mi.e23 * mi.e23
        * p.e013 == (s * s) * p.e013) by (nonlinear_arith)
        requires
            mi.s == s,
            mi.e12 == 0,
            mi.e13 == 0,
            mi.e23 == 0,
            mi.e01 == 0,
            mi.e02 == 0,
            mi.e03 == 0,
            mi.e0123 == 0,
    ;
    assert(mi.s * mi.s * p.e023 + mi.e23 * mi.e23 * p.e023 + 2 * (mi.s * mi.e12 * p.e013) + 2 * (
    mi.e13 * mi.e23 * p.e013) + 2 * (mi.e13 * mi.e03 * p.e123) + 2 * (mi.e12 * mi.e02 * p.e123)
        + 2 * (mi.e12 * mi.e23 * p.e012) - 2 * (mi.s * mi.e13 * p.e012) - 2 * (mi.s * mi.e01
        * p.e123) - 2 * (mi.e23 * mi.e0123 * p.e123) - mi.e13 * mi.e13 * p.e023 - mi.e12 * mi.e12
        * p.e023 == (s * s) * p.e023) by (nonlinear_arith)
        requires
            mi.s == s,
            mi.e12 == 0,
            mi.e13 == 0,
            mi.e23 == 0,
            mi.e01 == 0,
            mi.e02 == 0,
            mi.e03 == 0,
            mi.e0123 == 0,
    ;
    assert(mi.s * mi.s * p.e123 + mi.e12 * mi.e12 * p.e123 + mi.e13 * mi.e13 * p.e123 + mi.e23
        * mi.e23 * p.e123 == (s * s) * p.e123) by (nonlinear_arith)
        requires
            mi.s == s,
            mi.e12 == 0,
            mi.e13 == 0,
            mi.e23 == 0,
    ;
    assert(q.e012 == ((s * s) * p.e012) / (s * s));
    assert(q.e013 == ((s * s) * p.e013) / (s * s));
    assert(q.e023 == ((s * s) * p.e023) / (s * s));
    assert(q.e123 == ((s * s) * p.e123) / (s * s));
    assert(q == p);
    vstd::arithmetic::div_mod::lemma_div_multiples_vanish(v.x, s);
    vstd::arithmetic::div_mod::lemma_div_multiples_vanish(v.y, s);
    vstd::arithmetic::div_mod::lemma_div_multiples_vanish(v.z, s);
    assert((p.e023 * s) / s == (s * v.x) / s);
    assert((-p.e013 * s) / s == (s * v.y) / s);
    assert((p.e012 * s) / s == (s * v.z) / s);
}

} // verus!
