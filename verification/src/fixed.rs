//! Fixed-point scalar arithmetic for the motor algebra and the camera.
//!
//! A scalar is an `i64` holding the real value times `SCALE`. Products are
//! formed exactly in `i128` and brought back to scale with a Euclidean
//! (floor-toward-minus-infinity for positive divisors) division, the same
//! division the specifications state with `/`.

use vstd::arithmetic::div_mod::{
    lemma_fundamental_div_mod, lemma_fundamental_div_mod_converse_div,
    lemma_mod_division_less_than_divisor,
};
use vstd::prelude::*;

verus! {

/// One in fixed point: scalars carry 16 fractional bits.
pub const SCALE: i64 = 65536;

/// Largest component magnitude the motor operations accept; keeps every
/// intermediate product of three scalars well inside `i128`.
pub const COMPONENT_LIMIT: i64 = 0x2000_0000;

/// Bound on a product of two in-limit components.
pub const PRODUCT_LIMIT: i128 = 0x400_0000_0000_0000;

/// Bound on a product of three in-limit components.
pub const TRIPLE_LIMIT: i128 = 0x80_0000_0000_0000_0000_0000;

/// The scale squared, the divisor that brings a degree-three product back.
pub const SCALE_SQ: i128 = 0x1_0000_0000;

/// Euclidean division by a positive divisor, which rounds toward minus
/// infinity: exactly the `/` of the specifications.
pub fn euclid_div(x: i128, d: i128) -> (r: i128)
    requires
        0 < d <= 0x1_0000_0000_0000_0000,
        -0x4000_0000_0000_0000_0000_0000_0000_0000 <= x
            <= 0x4000_0000_0000_0000_0000_0000_0000_0000,
    ensures
        r == (x as int) / (d as int),
        x >= 0 ==> 0 <= r <= x,
        x < 0 ==> x <= r <= 0,
{
    proof {
        lemma_fundamental_div_mod(x as int, d as int);
        lemma_mod_division_less_than_divisor(x as int, d as int);
        if x >= 0 {
            assert(0 <= (x as int) / (d as int) <= x) by (nonlinear_arith)
                requires
                    x >= 0,
                    d >= 1,
                    x == d * ((x as int) / (d as int)) + (x as int) % (d as int),
                    0 <= (x as int) % (d as int) < d,
        ;
        } else {
            assert(x <= (x as int) / (d as int) <= 0) by (nonlinear_arith)
                requires
                    x < 0,
                    d >= 1,
                    x == d * ((x as int) / (d as int)) + (x as int) % (d as int),
                    0 <= (x as int) % (d as int) < d,
        ;
        }
    }
    if x >= 0 {
        ((x as u128) / (d as u128)) as i128
    } else {
        let y: i128 = -x;
        proof {
            let qq = (x as int) / (d as int);
            let rm = (x as int) % (d as int);
            assert(y + d - 1 == (-qq) * d + (d - 1 - rm)) by (nonlinear_arith)
                requires
                    x == d * qq + rm,
                    y == -x,
        ;
            lemma_fundamental_div_mod_converse_div(y + d - 1, d as int, -qq, d - 1 - rm);
        }
        let q: i128 = (((y + d - 1) as u128) / (d as u128)) as i128;
        -q
    }
}

/// The exact product of two in-limit scalars, formed in `i128`.
pub fn wide_mul(a: i64, b: i64) -> (r: i128)
    requires
        -COMPONENT_LIMIT <= a <= COMPONENT_LIMIT,
        -COMPONENT_LIMIT <= b <= COMPONENT_LIMIT,
    ensures
        r == a as int * b as int,
        -PRODUCT_LIMIT <= r <= PRODUCT_LIMIT,
{
    proof {
        assert(-PRODUCT_LIMIT <= a as int * b as int <= PRODUCT_LIMIT) by (nonlinear_arith)
            requires
                -COMPONENT_LIMIT <= a <= COMPONENT_LIMIT,
                -COMPONENT_LIMIT <= b <= COMPONENT_LIMIT,
        ;
    }
    (a as i128) * (b as i128)
}

/// The exact product of three in-limit scalars, formed in `i128`.
pub fn wide_mul3(a: i64, b: i64, c: i64) -> (r: i128)
    requires
        -COMPONENT_LIMIT <= a <= COMPONENT_LIMIT,
        -COMPONENT_LIMIT <= b <= COMPONENT_LIMIT,
        -COMPONENT_LIMIT <= c <= COMPONENT_LIMIT,
    ensures
        r == a as int * b as int * c as int,
        -TRIPLE_LIMIT <= r <= TRIPLE_LIMIT,
{
    let ab = wide_mul(a, b);
    proof {
        assert(-TRIPLE_LIMIT <= ab * c <= TRIPLE_LIMIT) by (nonlinear_arith)
            requires
                -PRODUCT_LIMIT <= ab <= PRODUCT_LIMIT,
                -COMPONENT_LIMIT <= c <= COMPONENT_LIMIT,
        ;
    }
    ab * (c as i128)
}

/// A bound on the operand gives a bound on the quotient.
pub proof fn lemma_div_bound(x: int, b: int, d: int)
    requires
        0 < d,
        0 <= b,
        -b <= x <= b,
    ensures
        -(b / d) - 1 <= x / d <= b / d,
{
    broadcast use vstd::arithmetic::div_mod::lemma_div_is_ordered;

    lemma_fundamental_div_mod(b, d);
    lemma_mod_division_less_than_divisor(b, d);
    let q = b / d;
    let rm = b % d;
    if rm == 0 {
        assert(-b == (-q) * d + 0) by (nonlinear_arith)
            requires
                b == d * q + rm,
                rm == 0,
        ;
        lemma_fundamental_div_mod_converse_div(-b, d, -q, 0);
    } else {
        assert(-b == (-q - 1) * d + (d - rm)) by (nonlinear_arith)
            requires
                b == d * q + rm,
        ;
        lemma_fundamental_div_mod_converse_div(-b, d, -q - 1, d - rm);
    }
    assert(-b <= x);
    assert((-b) / d <= x / d);
}

/// Euclidean division by a negative divisor is the negated division by
/// its magnitude.
pub proof fn lemma_div_negative_divisor(x: int, d: int)
    requires
        d < 0,
    ensures
        x / d == -(x / (-d)),
{
    let e = -d;
    lemma_fundamental_div_mod(x, e);
    lemma_mod_division_less_than_divisor(x, e);
    let q = x / e;
    let rm = x % e;
    assert(x / d == -q) by (nonlinear_arith)
        requires
            d < 0,
            e == -d,
            x == e * q + rm,
            0 <= rm < e,
    ;
}

/// The integer square root: the largest `r` with `r * r <= n`.
pub open spec fn int_sqrt(n: nat) -> nat
    decreases n,
{
    if n == 0 {
        0
    } else {
        let r = int_sqrt((n - 1) as nat);
        if (r + 1) * (r + 1) <= n {
            r + 1
        } else {
            r
        }
    }
}

/// `int_sqrt` is the floor of the square root.
pub proof fn lemma_int_sqrt_bounds(n: nat)
    ensures
        int_sqrt(n) * int_sqrt(n) <= n,
        n < (int_sqrt(n) + 1) * (int_sqrt(n) + 1),
    decreases n,
{
    if n == 0 {
        assert(int_sqrt(n) == 0);
        assert(int_sqrt(n) * int_sqrt(n) <= n);
        assert(n < (int_sqrt(n) + 1) * (int_sqrt(n) + 1)) by (nonlinear_arith)
            requires
                int_sqrt(n) == 0,
                n == 0,
        ;
    } else {
        lemma_int_sqrt_bounds((n - 1) as nat);
        let r = int_sqrt((n - 1) as nat);
        if (r + 1) * (r + 1) <= n {
            assert(int_sqrt(n) == r + 1);
            assert(n < (r + 2) * (r + 2)) by (nonlinear_arith)
                requires
                    n - 1 < (r + 1) * (r + 1),
        ;
            assert(int_sqrt(n) * int_sqrt(n) <= n);
            assert(n < (int_sqrt(n) + 1) * (int_sqrt(n) + 1));
        } else {
            assert(int_sqrt(n) == r);
            assert(int_sqrt(n) * int_sqrt(n) <= n);
            assert(n < (int_sqrt(n) + 1) * (int_sqrt(n) + 1));
        }
    }
}

/// Any value with the two floor bounds is `int_sqrt`.
pub proof fn lemma_int_sqrt_unique(n: nat, r: nat)
    requires
        r * r <= n,
        n < (r + 1) * (r + 1),
    ensures
        r == int_sqrt(n),
{
    lemma_int_sqrt_bounds(n);
    let s = int_sqrt(n);
    if r < s {
        assert((r + 1) * (r + 1) <= s * s) by (nonlinear_arith)
            requires
                r + 1 <= s,
        ;
    }
    if s < r {
        assert((s + 1) * (s + 1) <= r * r) by (nonlinear_arith)
            requires
                s + 1 <= r,
        ;
    }
}

/// The integer square root, by bisection.
pub fn isqrt(n: u64) -> (r: u64)
    ensures
        r == int_sqrt(n as nat),
{
    let mut lo: u64 = 0;
    let mut hi: u64 = 0x1_0000_0000;
    while lo + 1 < hi
        invariant
            lo < hi <= 0x1_0000_0000,
            (lo as nat) * (lo as nat) <= n as nat,
            (n as nat) < (hi as nat) * (hi as nat),
        decreases hi - lo,
    {
        let mid: u64 = lo + (hi - lo) / 2;
        proof {
            assert((mid as int) * (mid as int) <= 0xffff_ffff * 0xffff_ffff) by (nonlinear_arith)
                requires
                    mid <= 0xffff_ffff,
        ;
        }
        if mid * mid <= n {
            lo = mid;
        } else {
            hi = mid;
        }
    }
    proof {
        lemma_int_sqrt_unique(n as nat, lo as nat);
    }
    lo
}

} // verus!
