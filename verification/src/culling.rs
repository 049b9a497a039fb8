//! Viewport culling: from the camera's exact state to the rectangle of grid
//! indices that covers everything the camera can see.
//!
//! The camera's half extent along each screen axis is `1 / zoom` (smaller
//! zoom sees more world). A rotated view must be covered by an axis-aligned
//! box, so the half extent is enlarged to
//! `(hx * |cos a| + hy * |sin a|, hx * |sin a| + hy * |cos a|)`, the standard
//! rotated-box bound. The world-space view rectangle is the target plus and
//! minus that enlarged half extent; dividing its corners by the grid cell
//! size, flooring the lower corner, ceiling the upper one and clamping both
//! to the grid yields the half-open index ranges.
//!
//! All of it is computed exactly: every real-valued input is a rational, and
//! the arithmetic runs in `i128`, which the bound [`COORD_BOUND`] on every
//! input keeps free of overflow.

use vstd::prelude::*;
use vstd::arithmetic::div_mod::{lemma_div_is_ordered, lemma_fundamental_div_mod,
    lemma_fundamental_div_mod_converse, lemma_mod_bound};
use vstd::arithmetic::mul::lemma_mul_inequality;
use crate::geom::{
    clamp_to, lemma_mul_in_bounds, lemma_mul_nonneg_bounds, lemma_mul_pos_bounds, ceil_div,
    floor_div, rat_ceil, rat_floor, RatVec2, Ratio, Vec2u, WideRatio, WideVec2, COORD_BOUND,
    WIDE_BOUND,
};

verus! {

/// The camera state the culling reads. `target` is the point the camera
/// looks at, in world units. `zoom` is the reciprocal world-units-per-screen
/// convention: the half extent of the view along a screen axis is
/// `1 / zoom`, so every zoom numerator must be positive. The rotation enters
/// the culling only through the absolute cosine and sine of the angle;
/// `cos_abs` and `sin_abs` carry those two values, each in `[0, 1]`, and the
/// rendering layer that knows the angle in degrees supplies them.
#[derive(Clone, Copy, Debug, PartialEq, Eq, Structural)]
pub struct Camera {
    pub target: RatVec2,
    pub zoom: RatVec2,
    pub cos_abs: Ratio,
    pub sin_abs: Ratio,
}

impl Camera {
    pub open spec fn wf(self) -> bool {
        &&& self.target.wf()
        &&& self.zoom.wf()
        &&& self.cos_abs.wf()
        &&& self.sin_abs.wf()
        &&& 1 <= self.zoom.x.num
        &&& 1 <= self.zoom.y.num
        &&& 0 <= self.cos_abs.num <= self.cos_abs.den
        &&& 0 <= self.sin_abs.num <= self.sin_abs.den
    }
}

/// Common denominator of the enlarged half extent: the product of the zoom
/// numerators and the denominators of `cos_abs` and `sin_abs`.
pub open spec fn extent_den(cam: Camera) -> int {
    cam.zoom.x.num * cam.zoom.y.num * cam.cos_abs.den * cam.sin_abs.den
}

/// Numerator, over [`extent_den`], of the enlarged half extent along x:
/// `(1/zoom.x) * cos_abs + (1/zoom.y) * sin_abs`.
pub open spec fn extent_x_num(cam: Camera) -> int {
    cam.zoom.x.den * cam.cos_abs.num * cam.zoom.y.num * cam.sin_abs.den + cam.zoom.y.den
        * cam.sin_abs.num * cam.zoom.x.num * cam.cos_abs.den
}

/// Numerator, over [`extent_den`], of the enlarged half extent along y:
/// `(1/zoom.x) * sin_abs + (1/zoom.y) * cos_abs`.
pub open spec fn extent_y_num(cam: Camera) -> int {
    cam.zoom.x.den * cam.sin_abs.num * cam.zoom.y.num * cam.cos_abs.den + cam.zoom.y.den
        * cam.cos_abs.num * cam.zoom.x.num * cam.sin_abs.den
}

/// Denominator of the view rectangle's x coordinates:
/// `target.x.den * extent_den`.
pub open spec fn view_den_x(cam: Camera) -> int {
    cam.target.x.den * extent_den(cam)
}

/// Denominator of the view rectangle's y coordinates.
pub open spec fn view_den_y(cam: Camera) -> int {
    cam.target.y.den * extent_den(cam)
}

/// Numerator, over [`view_den_x`], of the view rectangle's left edge:
/// `target.x - extent_x`.
pub open spec fn view_lo_x_num(cam: Camera) -> int {
    cam.target.x.num * extent_den(cam) - cam.target.x.den * extent_x_num(cam)
}

/// Numerator, over [`view_den_x`], of the view rectangle's right edge:
/// `target.x + extent_x`.
pub open spec fn view_hi_x_num(cam: Camera) -> int {
    cam.target.x.num * extent_den(cam) + cam.target.x.den * extent_x_num(cam)
}

/// Numerator, over [`view_den_y`], of the view rectangle's top edge.
pub open spec fn view_lo_y_num(cam: Camera) -> int {
    cam.target.y.num * extent_den(cam) - cam.target.y.den * extent_y_num(cam)
}

/// Numerator, over [`view_den_y`], of the view rectangle's bottom edge.
pub open spec fn view_hi_y_num(cam: Camera) -> int {
    cam.target.y.num * extent_den(cam) + cam.target.y.den * extent_y_num(cam)
}

/// Bounds on every intermediate product of the view-rectangle computation,
/// for a well-formed camera: with all inputs within [`COORD_BOUND`] (2^20),
/// four-factor products stay within 2^80, the extent numerators within
/// 2^81, and the view numerators and denominators within 2^102, so the
/// whole computation fits comfortably in `i128`.
pub proof fn lemma_camera_bounds(cam: Camera)
    requires
        cam.wf(),
    ensures
        1 <= cam.zoom.x.num * cam.zoom.y.num <= 1099511627776,
        1 <= cam.zoom.x.num * cam.zoom.y.num * cam.cos_abs.den <= 1152921504606846976,
        1 <= extent_den(cam) <= 1208925819614629174706176,
        0 <= cam.zoom.x.den * cam.cos_abs.num <= 1099511627776,
        0 <= cam.zoom.x.den * cam.cos_abs.num * cam.zoom.y.num <= 1152921504606846976,
        0 <= cam.zoom.x.den * cam.cos_abs.num * cam.zoom.y.num * cam.sin_abs.den
            <= 1208925819614629174706176,
        0 <= cam.zoom.y.den * cam.sin_abs.num <= 1099511627776,
        0 <= cam.zoom.y.den * cam.sin_abs.num * cam.zoom.x.num <= 1152921504606846976,
        0 <= cam.zoom.y.den * cam.sin_abs.num * cam.zoom.x.num * cam.cos_abs.den
            <= 1208925819614629174706176,
        0 <= extent_x_num(cam) <= 2417851639229258349412352,
        0 <= cam.zoom.x.den * cam.sin_abs.num <= 1099511627776,
        0 <= cam.zoom.x.den * cam.sin_abs.num * cam.zoom.y.num <= 1152921504606846976,
        0 <= cam.zoom.x.den * cam.sin_abs.num * cam.zoom.y.num * cam.cos_abs.den
            <= 1208925819614629174706176,
        0 <= cam.zoom.y.den * cam.cos_abs.num <= 1099511627776,
        0 <= cam.zoom.y.den * cam.cos_abs.num * cam.zoom.x.num <= 1152921504606846976,
        0 <= cam.zoom.y.den * cam.cos_abs.num * cam.zoom.x.num * cam.sin_abs.den
            <= 1208925819614629174706176,
        0 <= extent_y_num(cam) <= 2417851639229258349412352,
        -1267650600228229401496703205376 <= cam.target.x.num * extent_den(cam)
            <= 1267650600228229401496703205376,
        -1267650600228229401496703205376 <= cam.target.y.num * extent_den(cam)
            <= 1267650600228229401496703205376,
        0 <= cam.target.x.den * extent_x_num(cam) <= 2535301200456458802993406410752,
        0 <= cam.target.y.den * extent_y_num(cam) <= 2535301200456458802993406410752,
        1 <= view_den_x(cam) <= 1267650600228229401496703205376,
        1 <= view_den_y(cam) <= 1267650600228229401496703205376,
        -WIDE_BOUND <= view_lo_x_num(cam) <= WIDE_BOUND,
        -WIDE_BOUND <= view_hi_x_num(cam) <= WIDE_BOUND,
        -WIDE_BOUND <= view_lo_y_num(cam) <= WIDE_BOUND,
        -WIDE_BOUND <= view_hi_y_num(cam) <= WIDE_BOUND,
{
    let cb = COORD_BOUND as int;
    let znx = cam.zoom.x.num as int;
    let zdx = cam.zoom.x.den as int;
    let zny = cam.zoom.y.num as int;
    let zdy = cam.zoom.y.den as int;
    let cn = cam.cos_abs.num as int;
    let cd = cam.cos_abs.den as int;
    let sn = cam.sin_abs.num as int;
    let sd = cam.sin_abs.den as int;
    let txn = cam.target.x.num as int;
    let txd = cam.target.x.den as int;
    let tyn = cam.target.y.num as int;
    let tyd = cam.target.y.den as int;
    lemma_mul_pos_bounds(znx, zny, cb, cb);
    lemma_mul_pos_bounds(znx * zny, cd, 1099511627776, cb);
    lemma_mul_pos_bounds(znx * zny * cd, sd, 1152921504606846976, cb);
    lemma_mul_nonneg_bounds(zdx, cn, cb, cb);
    lemma_mul_nonneg_bounds(zdx * cn, zny, 1099511627776, cb);
    lemma_mul_nonneg_bounds(zdx * cn * zny, sd, 1152921504606846976, cb);
    lemma_mul_nonneg_bounds(zdy, sn, cb, cb);
    lemma_mul_nonneg_bounds(zdy * sn, znx, 1099511627776, cb);
    lemma_mul_nonneg_bounds(zdy * sn * znx, cd, 1152921504606846976, cb);
    lemma_mul_nonneg_bounds(zdx, sn, cb, cb);
    lemma_mul_nonneg_bounds(zdx * sn, zny, 1099511627776, cb);
    lemma_mul_nonneg_bounds(zdx * sn * zny, cd, 1152921504606846976, cb);
    lemma_mul_nonneg_bounds(zdy, cn, cb, cb);
    lemma_mul_nonneg_bounds(zdy * cn, znx, 1099511627776, cb);
    lemma_mul_nonneg_bounds(zdy * cn * znx, sd, 1152921504606846976, cb);
    lemma_mul_in_bounds(txn, extent_den(cam), cb, 1208925819614629174706176);
    lemma_mul_in_bounds(tyn, extent_den(cam), cb, 1208925819614629174706176);
    lemma_mul_nonneg_bounds(txd, extent_x_num(cam), cb, 2417851639229258349412352);
    lemma_mul_nonneg_bounds(tyd, extent_y_num(cam), cb, 2417851639229258349412352);
    lemma_mul_pos_bounds(txd, extent_den(cam), cb, 1208925819614629174706176);
    lemma_mul_pos_bounds(tyd, extent_den(cam), cb, 1208925819614629174706176);
}

/// The world-space view rectangle of a camera, as its two corners
/// `(target - extent, target + extent)`, computed exactly.
pub fn view_area(camera: &Camera) -> (r: (WideVec2, WideVec2))
    requires
        camera.wf(),
    ensures
        r.0.x.num == view_lo_x_num(*camera),
        r.0.y.num == view_lo_y_num(*camera),
        r.1.x.num == view_hi_x_num(*camera),
        r.1.y.num == view_hi_y_num(*camera),
        r.0.x.den == view_den_x(*camera),
        r.1.x.den == view_den_x(*camera),
        r.0.y.den == view_den_y(*camera),
        r.1.y.den == view_den_y(*camera),
        r.0.wf(),
        r.1.wf(),
        r.0.x.num <= r.1.x.num,
        r.0.y.num <= r.1.y.num,
{
    proof {
        lemma_camera_bounds(*camera);
    }
    let znx = camera.zoom.x.num as i128;
    let zdx = camera.zoom.x.den as i128;
    let zny = camera.zoom.y.num as i128;
    let zdy = camera.zoom.y.den as i128;
    let cn = camera.cos_abs.num as i128;
    let cd = camera.cos_abs.den as i128;
    let sn = camera.sin_abs.num as i128;
    let sd = camera.sin_abs.den as i128;
    let txn = camera.target.x.num as i128;
    let txd = camera.target.x.den as i128;
    let tyn = camera.target.y.num as i128;
    let tyd = camera.target.y.den as i128;

    let e_den = znx * zny * cd * sd;
    let e_x_num = zdx * cn * zny * sd + zdy * sn * znx * cd;
    let e_y_num = zdx * sn * zny * cd + zdy * cn * znx * sd;

    let den_x = txd * e_den;
    let den_y = tyd * e_den;
    let lo_x = WideRatio { num: txn * e_den - txd * e_x_num, den: den_x };
    let hi_x = WideRatio { num: txn * e_den + txd * e_x_num, den: den_x };
    let lo_y = WideRatio { num: tyn * e_den - tyd * e_y_num, den: den_y };
    let hi_y = WideRatio { num: tyn * e_den + tyd * e_y_num, den: den_y };
    (WideVec2 { x: lo_x, y: lo_y }, WideVec2 { x: hi_x, y: hi_y })
}

/// Index of the grid cell containing a world coordinate's floor, clamped to
/// `[0, dim]`.
pub open spec fn grid_floor(num: int, den: int, gs: int, dim: int) -> int {
    clamp_to(rat_floor(num, den * gs), dim)
}

/// Index of the grid cell past a world coordinate's ceiling, clamped to
/// `[0, dim]`.
pub open spec fn grid_ceil(num: int, den: int, gs: int, dim: int) -> int {
    clamp_to(rat_ceil(num, den * gs), dim)
}

/// Floor of the world coordinate `num / den` divided by the cell size `gs`,
/// clamped to `[0, dim]`.
fn grid_floor_exec(num: i128, den: i128, gs: usize, dim: usize) -> (r: usize)
    requires
        0 < den <= WIDE_BOUND,
        -WIDE_BOUND <= num <= WIDE_BOUND,
        1 <= gs <= COORD_BOUND,
        dim <= COORD_BOUND,
    ensures
        r == grid_floor(num as int, den as int, gs as int, dim as int),
{
    proof {
        lemma_mul_pos_bounds(den as int, gs as int, WIDE_BOUND as int, COORD_BOUND as int);
    }
    let d = den * (gs as i128);
    let q = floor_div(num, d);
    if q < 0 {
        0
    } else if q > dim as i128 {
        dim
    } else {
        q as usize
    }
}

/// Ceiling of the world coordinate `num / den` divided by the cell size
/// `gs`, clamped to `[0, dim]`.
fn grid_ceil_exec(num: i128, den: i128, gs: usize, dim: usize) -> (r: usize)
    requires
        0 < den <= WIDE_BOUND,
        -WIDE_BOUND <= num <= WIDE_BOUND,
        1 <= gs <= COORD_BOUND,
        dim <= COORD_BOUND,
    ensures
        r == grid_ceil(num as int, den as int, gs as int, dim as int),
{
    proof {
        lemma_mul_pos_bounds(den as int, gs as int, WIDE_BOUND as int, COORD_BOUND as int);
    }
    let d = den * (gs as i128);
    let q = ceil_div(num, d);
    if q < 0 {
        0
    } else if q > dim as i128 {
        dim
    } else {
        q as usize
    }
}

/// At rotation 0 or 180 degrees (|cos| = 1, |sin| = 0) the enlarged half
/// extent equals the plain half extent `1 / zoom` on both axes, exactly:
/// each equation below is the cross-multiplied form of
/// `extent_axis / extent_den == zoom_axis.den / zoom_axis.num`.
pub proof fn lemma_extent_axis_aligned(cam: Camera)
    requires
        cam.wf(),
        cam.cos_abs.num == cam.cos_abs.den,
        cam.sin_abs.num == 0,
    ensures
        extent_x_num(cam) * cam.zoom.x.num == cam.zoom.x.den * extent_den(cam),
        extent_y_num(cam) * cam.zoom.y.num == cam.zoom.y.den * extent_den(cam),
{
    let znx = cam.zoom.x.num as int;
    let zdx = cam.zoom.x.den as int;
    let zny = cam.zoom.y.num as int;
    let zdy = cam.zoom.y.den as int;
    let cn = cam.cos_abs.num as int;
    let cd = cam.cos_abs.den as int;
    let sn = cam.sin_abs.num as int;
    let sd = cam.sin_abs.den as int;
    assert((zdx * cn * zny * sd + zdy * sn * znx * cd) * znx == zdx * (znx * zny * cd * sd))
        by (nonlinear_arith)
        requires
            cn == cd,
            sn == 0,
    ;
    assert((zdx * sn * zny * cd + zdy * cn * znx * sd) * zny == zdy * (znx * zny * cd * sd))
        by (nonlinear_arith)
        requires
            cn == cd,
            sn == 0,
    ;
}

/// At rotation 90 or 270 degrees (|cos| = 0, |sin| = 1) the enlarged half
/// extents are the plain half extents with the axes swapped, exactly: the
/// x extent equals `1 / zoom.y` and the y extent `1 / zoom.x`.
pub proof fn lemma_extent_quarter_turn(cam: Camera)
    requires
        cam.wf(),
        cam.cos_abs.num == 0,
        cam.sin_abs.num == cam.sin_abs.den,
    ensures
        extent_x_num(cam) * cam.zoom.y.num == cam.zoom.y.den * extent_den(cam),
        extent_y_num(cam) * cam.zoom.x.num == cam.zoom.x.den * extent_den(cam),
{
    let znx = cam.zoom.x.num as int;
    let zdx = cam.zoom.x.den as int;
    let zny = cam.zoom.y.num as int;
    let zdy = cam.zoom.y.den as int;
    let cn = cam.cos_abs.num as int;
    let cd = cam.cos_abs.den as int;
    let sn = cam.sin_abs.num as int;
    let sd = cam.sin_abs.den as int;
    assert((zdx * cn * zny * sd + zdy * sn * znx * cd) * zny == zdy * (znx * zny * cd * sd))
        by (nonlinear_arith)
        requires
            cn == 0,
            sn == sd,
    ;
    assert((zdx * sn * zny * cd + zdy * cn * znx * sd) * znx == zdx * (znx * zny * cd * sd))
        by (nonlinear_arith)
        requires
            cn == 0,
            sn == sd,
    ;
}

/// The floored, clamped lower index, scaled back to world units, lies at or
/// below the non-negative coordinate it was computed from.
pub proof fn lemma_grid_floor_below(num: int, den: int, gs: int, dim: int)
    requires
        1 <= den,
        1 <= gs,
        0 <= dim,
        0 <= num,
    ensures
        0 <= grid_floor(num, den, gs, dim),
        grid_floor(num, den, gs, dim) * gs * den <= num,
{
    let d = den * gs;
    lemma_mul_pos_bounds(den, gs, den, gs);
    let q0 = num / d;
    lemma_fundamental_div_mod(num, d);
    lemma_mod_bound(num, d);
    lemma_fundamental_div_mod_converse(0, d, 0, 0);
    lemma_div_is_ordered(0, num, d);
    let q = grid_floor(num, den, gs, dim);
    assert(q <= q0);
    lemma_mul_inequality(q, q0, d);
    assert(q * gs * den == q * d) by (nonlinear_arith)
        requires
            d == den * gs,
    ;
    assert(q0 * d == d * q0) by (nonlinear_arith);
}

/// The ceiled, clamped upper index, scaled back to world units, lies at or
/// above the coordinate, provided the coordinate lies inside the grid.
pub proof fn lemma_grid_ceil_above(num: int, den: int, gs: int, dim: int)
    requires
        1 <= den,
        1 <= gs,
        0 <= dim,
        0 <= num,
        num <= dim * (den * gs),
    ensures
        grid_ceil(num, den, gs, dim) <= dim,
        num <= grid_ceil(num, den, gs, dim) * gs * den,
{
    let d = den * gs;
    lemma_mul_pos_bounds(den, gs, den, gs);
    let q0 = (num + d - 1) / d;
    lemma_fundamental_div_mod(num + d - 1, d);
    lemma_mod_bound(num + d - 1, d);
    lemma_fundamental_div_mod_converse(0, d, 0, 0);
    lemma_div_is_ordered(0, num + d - 1, d);
    lemma_div_is_ordered(num + d - 1, dim * d + d - 1, d);
    lemma_fundamental_div_mod_converse(dim * d + d - 1, d, dim, d - 1);
    let q = grid_ceil(num, den, gs, dim);
    assert(q == q0);
    assert(num <= d * q0);
    assert(q * gs * den == q * d) by (nonlinear_arith)
        requires
            d == den * gs,
    ;
    assert(q * d == d * q) by (nonlinear_arith);
}

/// Containment of the view on one axis. The target coordinate is
/// `tn / td`, the zoom `zn / zd` (so the half extent is `zd / zn`), and the
/// enlarged extent on this axis is `en / ed` and equals the half extent
/// exactly (the rotation-0 case). If the interval
/// `[target - zd/zn, target + zd/zn]` lies inside `[0, dim * gs]`, then the
/// returned index range, scaled back by `gs`, contains it. All inequalities
/// are cross-multiplied by the positive `td * zn`.
proof fn lemma_axis_containment(
    tn: int,
    td: int,
    zn: int,
    zd: int,
    en: int,
    ed: int,
    gs: int,
    dim: int,
)
    requires
        1 <= td,
        1 <= zn,
        1 <= zd,
        1 <= ed,
        0 <= en,
        en * zn == zd * ed,
        1 <= gs,
        0 <= dim,
        0 <= tn * zn - td * zd,
        tn * zn + td * zd <= dim * gs * (td * zn),
    ensures
        grid_floor(tn * ed - td * en, td * ed, gs, dim) * gs * (td * zn) <= tn * zn - td * zd,
        tn * zn + td * zd <= grid_ceil(tn * ed + td * en, td * ed, gs, dim) * gs * (td * zn),
{
    let tau = td * zn;
    let denv = td * ed;
    let lo_num = tn * ed - td * en;
    let hi_num = tn * ed + td * en;
    let lov = tn * zn - td * zd;
    let hiv = tn * zn + td * zd;
    lemma_mul_pos_bounds(td, zn, td, zn);
    lemma_mul_pos_bounds(td, ed, td, ed);
    assert(lo_num * tau == lov * denv) by (nonlinear_arith)
        requires
            en * zn == zd * ed,
            tau == td * zn,
            denv == td * ed,
            lo_num == tn * ed - td * en,
            lov == tn * zn - td * zd,
    ;
    assert(hi_num * tau == hiv * denv) by (nonlinear_arith)
        requires
            en * zn == zd * ed,
            tau == td * zn,
            denv == td * ed,
            hi_num == tn * ed + td * en,
            hiv == tn * zn + td * zd,
    ;
    assert(0 <= lo_num) by (nonlinear_arith)
        requires
            lo_num * tau == lov * denv,
            0 <= lov,
            1 <= denv,
            1 <= tau,
    ;
    assert(0 <= td * en) by (nonlinear_arith)
        requires
            1 <= td,
            0 <= en,
    ;
    assert(hi_num <= dim * (denv * gs)) by (nonlinear_arith)
        requires
            hi_num * tau == hiv * denv,
            hiv <= dim * gs * tau,
            1 <= tau,
            1 <= denv,
            1 <= gs,
            0 <= dim,
    ;
    lemma_grid_floor_below(lo_num, denv, gs, dim);
    lemma_grid_ceil_above(hi_num, denv, gs, dim);
    let qf = grid_floor(lo_num, denv, gs, dim);
    let qc = grid_ceil(hi_num, denv, gs, dim);
    assert(qf * gs * tau <= lov) by (nonlinear_arith)
        requires
            qf * gs * denv <= lo_num,
            lo_num * tau == lov * denv,
            1 <= tau,
            1 <= denv,
    ;
    assert(hiv <= qc * gs * tau) by (nonlinear_arith)
        requires
            hi_num <= qc * gs * denv,
            hi_num * tau == hiv * denv,
            1 <= tau,
            1 <= denv,
    ;
}

/// With rotation 0 (|cos| = 1, |sin| = 0) and the whole unrotated view
/// rectangle `[target - 1/zoom, target + 1/zoom]` inside `[0, dim * gs]` on
/// both axes, the returned index range, converted back to world units,
/// fully contains that rectangle. Every inequality is the cross-multiplied
/// form over the positive denominator `target.den * zoom.num` of its axis.
/// (A view that sticks out of the grid is clamped instead and not contained:
/// see [`lemma_grid_range_empty_beyond`].)
pub proof fn lemma_culling_containment(cam: Camera, gs: int, dimx: int, dimy: int)
    requires
        cam.wf(),
        1 <= gs,
        0 <= dimx,
        0 <= dimy,
        cam.cos_abs.num == cam.cos_abs.den,
        cam.sin_abs.num == 0,
        0 <= cam.target.x.num * cam.zoom.x.num - cam.target.x.den * cam.zoom.x.den,
        cam.target.x.num * cam.zoom.x.num + cam.target.x.den * cam.zoom.x.den <= dimx * gs * (
        cam.target.x.den * cam.zoom.x.num),
        0 <= cam.target.y.num * cam.zoom.y.num - cam.target.y.den * cam.zoom.y.den,
        cam.target.y.num * cam.zoom.y.num + cam.target.y.den * cam.zoom.y.den <= dimy * gs * (
        cam.target.y.den * cam.zoom.y.num),
    ensures
        grid_floor(view_lo_x_num(cam), view_den_x(cam), gs, dimx) * gs * (cam.target.x.den
            * cam.zoom.x.num) <= cam.target.x.num * cam.zoom.x.num - cam.target.x.den
            * cam.zoom.x.den,
        cam.target.x.num * cam.zoom.x.num + cam.target.x.den * cam.zoom.x.den <= grid_ceil(
            view_hi_x_num(cam),
            view_den_x(cam),
            gs,
            dimx,
        ) * gs * (cam.target.x.den * cam.zoom.x.num),
        grid_floor(view_lo_y_num(cam), view_den_y(cam), gs, dimy) * gs * (cam.target.y.den
            * cam.zoom.y.num) <= cam.target.y.num * cam.zoom.y.num - cam.target.y.den
            * cam.zoom.y.den,
        cam.target.y.num * cam.zoom.y.num + cam.target.y.den * cam.zoom.y.den <= grid_ceil(
            view_hi_y_num(cam),
            view_den_y(cam),
            gs,
            dimy,
        ) * gs * (cam.target.y.den * cam.zoom.y.num),
{
    lemma_camera_bounds(cam);
    lemma_extent_axis_aligned(cam);
    lemma_axis_containment(
        cam.target.x.num as int,
        cam.target.x.den as int,
        cam.zoom.x.num as int,
        cam.zoom.x.den as int,
        extent_x_num(cam),
        extent_den(cam),
        gs,
        dimx,
    );
    lemma_axis_containment(
        cam.target.y.num as int,
        cam.target.y.den as int,
        cam.zoom.y.num as int,
        cam.zoom.y.den as int,
        extent_y_num(cam),
        extent_den(cam),
        gs,
        dimy,
    );
}

/// A view rectangle that lies entirely at or beyond the grid's far edge on
/// an axis clamps to the empty index range `[dim, dim)` on that axis -
/// never to an index outside the grid.
pub proof fn lemma_grid_range_empty_beyond(num_lo: int, num_hi: int, den: int, gs: int, dim: int)
    requires
        1 <= den,
        1 <= gs,
        0 <= dim,
        dim * (den * gs) <= num_lo,
        num_lo <= num_hi,
    ensures
        grid_floor(num_lo, den, gs, dim) == dim,
        grid_ceil(num_hi, den, gs, dim) == dim,
{
    let d = den * gs;
    lemma_mul_pos_bounds(den, gs, den, gs);
    lemma_fundamental_div_mod_converse(dim * d, d, dim, 0);
    lemma_div_is_ordered(dim * d, num_lo, d);
    lemma_div_is_ordered(num_lo, num_hi + d - 1, d);
}

/// A floored lower corner never lies above a ceiled upper corner: the
/// returned index range is well ordered and inside the grid.
pub proof fn lemma_grid_range_ordered(lo_num: int, hi_num: int, den: int, gs: int, dim: int)
    requires
        1 <= den,
        1 <= gs,
        0 <= dim,
        lo_num <= hi_num,
    ensures
        0 <= grid_floor(lo_num, den, gs, dim) <= grid_ceil(hi_num, den, gs, dim) <= dim,
{
    let d = den * gs;
    lemma_mul_pos_bounds(den, gs, den, gs);
    lemma_div_is_ordered(lo_num, hi_num + d - 1, d);
}

/// Converts a world-space rectangle, given by its two corners, to the range
/// of indices it covers in a grid of `grid_dim` square cells of edge
/// `grid_size` world units anchored at the origin: the lower corner is
/// floored, the upper corner is ceiled, and both are clamped to
/// `[0, grid_dim]`, so the result is always a sub-range of the grid.
pub fn get_area_in_grid(grid_size: usize, grid_dim: Vec2u, area_lo: WideVec2, area_hi: WideVec2)
    -> (r: (Vec2u, Vec2u))
    requires
        area_lo.wf(),
        area_hi.wf(),
        1 <= grid_size <= COORD_BOUND,
        grid_dim.x <= COORD_BOUND,
        grid_dim.y <= COORD_BOUND,
    ensures
        r.0.x == grid_floor(area_lo.x.num as int, area_lo.x.den as int, grid_size as int, grid_dim.x as int),
        r.0.y == grid_floor(area_lo.y.num as int, area_lo.y.den as int, grid_size as int, grid_dim.y as int),
        r.1.x == grid_ceil(area_hi.x.num as int, area_hi.x.den as int, grid_size as int, grid_dim.x as int),
        r.1.y == grid_ceil(area_hi.y.num as int, area_hi.y.den as int, grid_size as int, grid_dim.y as int),
        r.0.x <= grid_dim.x,
        r.0.y <= grid_dim.y,
        r.1.x <= grid_dim.x,
        r.1.y <= grid_dim.y,
{
    let lo = Vec2u {
        x: grid_floor_exec(area_lo.x.num, area_lo.x.den, grid_size, grid_dim.x),
        y: grid_floor_exec(area_lo.y.num, area_lo.y.den, grid_size, grid_dim.y),
    };
    let hi = Vec2u {
        x: grid_ceil_exec(area_hi.x.num, area_hi.x.den, grid_size, grid_dim.x),
        y: grid_ceil_exec(area_hi.y.num, area_hi.y.den, grid_size, grid_dim.y),
    };
    (lo, hi)
}

} // verus!
