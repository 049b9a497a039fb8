//! Plain integer geometry: 2D vectors of `usize`, exact rational values, and
//! floor/ceiling division on wide integers.
//!
//! Real-valued camera state (positions, zoom factors, |cos| and |sin| of the
//! rotation) enters the library as exact rationals: an integer numerator over
//! a positive integer denominator. All culling arithmetic is then exact
//! integer arithmetic; `i128` intermediates are wide enough because every
//! input numerator and denominator is bounded by [`COORD_BOUND`].

use vstd::prelude::*;
use vstd::arithmetic::div_mod::{
    lemma_fundamental_div_mod, lemma_fundamental_div_mod_converse, lemma_mod_bound,
};

verus! {

/// A 2D vector of non-negative integer coordinates (tile, chunk or world
/// units, depending on context).
#[derive(Clone, Copy, Debug, PartialEq, Eq, Structural)]
pub struct Vec2u {
    pub x: usize,
    pub y: usize,
}

impl Vec2u {
    pub fn new(x: usize, y: usize) -> (r: Vec2u)
        ensures
            r.x == x,
            r.y == y,
    {
        Vec2u { x, y }
    }
}

/// Largest magnitude allowed for the numerator and denominator of a camera
/// input rational, and for grid dimensions fed to the culling arithmetic.
/// Keeping every input within this bound lets the whole culling computation
/// run exactly in `i128` without overflow.
pub const COORD_BOUND: i64 = 1048576;

/// Bound on the numerator magnitude and denominator of a [`WideRatio`]
/// accepted by the grid conversion; wide enough (2^105) for any value
/// produced from bounded camera inputs, small enough that a further
/// multiplication by a grid size up to [`COORD_BOUND`] still fits in `i128`.
pub const WIDE_BOUND: i128 = 40564819207303340847894502572032;

/// 2^126: the widest magnitude the division helpers accept.
pub const DIV_BOUND: i128 = 85070591730234615865843651857942052864;

/// 2^110: magnitude bound on the inputs of [`ceil_div`], leaving room to add
/// the denominator to the numerator.
pub const CEIL_BOUND: i128 = 1298074214633706907132624082305024;

/// An exact rational number `num / den`. Valid values have `den > 0`.
#[derive(Clone, Copy, Debug, PartialEq, Eq, Structural)]
pub struct Ratio {
    pub num: i64,
    pub den: i64,
}

impl Ratio {
    /// The value is well formed and both parts are small enough for the
    /// exact culling arithmetic.
    pub open spec fn wf(self) -> bool {
        0 < self.den <= COORD_BOUND && -COORD_BOUND <= self.num <= COORD_BOUND
    }

    pub fn new(num: i64, den: i64) -> (r: Ratio)
        ensures
            r.num == num,
            r.den == den,
    {
        Ratio { num, den }
    }
}

/// A 2D vector of exact rationals (a point or extent in world units).
#[derive(Clone, Copy, Debug, PartialEq, Eq, Structural)]
pub struct RatVec2 {
    pub x: Ratio,
    pub y: Ratio,
}

impl RatVec2 {
    pub open spec fn wf(self) -> bool {
        self.x.wf() && self.y.wf()
    }

    pub fn new(x: Ratio, y: Ratio) -> (r: RatVec2)
        ensures
            r.x == x,
            r.y == y,
    {
        RatVec2 { x, y }
    }
}

/// A rational with wide parts, as produced by the culling arithmetic before
/// its final floor or ceiling: `num / den` with `den > 0`.
#[derive(Clone, Copy, Debug, PartialEq, Eq, Structural)]
pub struct WideRatio {
    pub num: i128,
    pub den: i128,
}

impl WideRatio {
    pub open spec fn wf(self) -> bool {
        0 < self.den <= WIDE_BOUND && -WIDE_BOUND <= self.num <= WIDE_BOUND
    }
}

/// A 2D vector of wide rationals (a computed point in world units).
#[derive(Clone, Copy, Debug, PartialEq, Eq, Structural)]
pub struct WideVec2 {
    pub x: WideRatio,
    pub y: WideRatio,
}

impl WideVec2 {
    pub open spec fn wf(self) -> bool {
        self.x.wf() && self.y.wf()
    }
}

/// The product of two values bounded in magnitude is bounded by the product
/// of the bounds.
pub proof fn lemma_mul_in_bounds(a: int, b: int, ab: int, bb: int)
    requires
        -ab <= a <= ab,
        -bb <= b <= bb,
        0 <= ab,
        0 <= bb,
    ensures
        -(ab * bb) <= a * b <= ab * bb,
{
    assert(-(ab * bb) <= a * b <= ab * bb) by (nonlinear_arith)
        requires
            -ab <= a <= ab,
            -bb <= b <= bb,
            0 <= ab,
            0 <= bb,
    ;
}

/// Floor of the rational `num / den`, for `den > 0`: Euclidean integer
/// division rounds toward negative infinity when the divisor is positive.
pub open spec fn rat_floor(num: int, den: int) -> int {
    num / den
}

/// Ceiling of the rational `num / den`, for `den > 0`.
pub open spec fn rat_ceil(num: int, den: int) -> int {
    (num + den - 1) / den
}

/// `v` clamped to the interval `[0, hi]`.
pub open spec fn clamp_to(v: int, hi: int) -> int {
    if v < 0 {
        0
    } else if v > hi {
        hi
    } else {
        v
    }
}

/// For positive `m` and `d`, the Euclidean quotient of `-m` by `d` is the
/// negated ceiling of `m / d`.
proof fn lemma_floor_of_negative(m: int, d: int)
    requires
        m >= 1,
        d >= 1,
    ensures
        (-m) / d == -((m + d - 1) / d),
{
    let q = (m + d - 1) / d;
    let r = (m + d - 1) % d;
    lemma_fundamental_div_mod(m + d - 1, d);
    lemma_mod_bound(m + d - 1, d);
    assert(m + d - 1 == d * q + r);
    let r2 = d * q - m;
    assert(r2 == d - 1 - r);
    assert((-q) * d == -(d * q)) by (nonlinear_arith);
    assert(-m == (-q) * d + r2);
    lemma_fundamental_div_mod_converse(-m, d, -q, r2);
}

/// Exact floor of `num / den` on wide integers.
pub fn floor_div(num: i128, den: i128) -> (q: i128)
    requires
        1 <= den <= DIV_BOUND,
        -DIV_BOUND <= num,
    ensures
        q == rat_floor(num as int, den as int),
{
    if num >= 0 {
        let nn = num as u128;
        let dd = den as u128;
        let qq = nn / dd;
        qq as i128
    } else {
        let m = (-num) as u128;
        let dd = den as u128;
        let qq = (m + dd - 1) / dd;
        proof {
            let mi = m as int;
            let di = dd as int;
            lemma_floor_of_negative(mi, di);
            assert(qq <= m) by {
                lemma_fundamental_div_mod(mi + di - 1, di);
                lemma_mod_bound(mi + di - 1, di);
                let q0 = (mi + di - 1) / di;
                let r0 = (mi + di - 1) % di;
                assert(q0 <= mi) by (nonlinear_arith)
                    requires
                        mi >= 1,
                        di >= 1,
                        di * q0 + r0 == mi + di - 1,
                        0 <= r0 < di,
                ;
            }
        }
        -(qq as i128)
    }
}

/// Exact ceiling of `num / den` on wide integers.
pub fn ceil_div(num: i128, den: i128) -> (q: i128)
    requires
        1 <= den <= DIV_BOUND,
        -CEIL_BOUND <= num <= CEIL_BOUND,
    ensures
        q == rat_ceil(num as int, den as int),
{
    floor_div(num + den - 1, den)
}

/// The product of two positive bounded values is positive and bounded.
pub proof fn lemma_mul_pos_bounds(a: int, b: int, ab: int, bb: int)
    requires
        1 <= a <= ab,
        1 <= b <= bb,
    ensures
        1 <= a * b <= ab * bb,
{
    assert(1 <= a * b <= ab * bb) by (nonlinear_arith)
        requires
            1 <= a <= ab,
            1 <= b <= bb,
    ;
}

/// The product of two non-negative bounded values is non-negative and
/// bounded.
pub proof fn lemma_mul_nonneg_bounds(a: int, b: int, ab: int, bb: int)
    requires
        0 <= a <= ab,
        0 <= b <= bb,
    ensures
        0 <= a * b <= ab * bb,
{
    assert(0 <= a * b <= ab * bb) by (nonlinear_arith)
        requires
            0 <= a <= ab,
            0 <= b <= bb,
    ;
}

} // verus!
