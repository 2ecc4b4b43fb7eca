//! The triangle rasterizer: three transformed vertices become the finite
//! set of fragments whose pixel centers lie inside the triangle, each with
//! a barycentrically interpolated depth.
//!
//! Pixel centers live on the integer lattice; a pixel `(px, py)` sits at
//! the fixed-point point `(256 * px, 256 * py)`. Coverage uses the
//! inclusive edge rule: a pixel is covered exactly when all three edge
//! weights have the sign of the triangle's area, or are zero.

use vstd::prelude::*;
use crate::vertex::Vertex;
use crate::fragment::Fragment;
use crate::fixed::FX_ONE;
use crate::fixed::floor_div_i64;
use crate::fixed::floor_div_i128;
use crate::fixed::lemma_div_bound;
use crate::fixed::lemma_mul_bound;

verus! {

/// Largest coordinate magnitude the rasterizer accepts.
pub const LIM_RASTER: i64 = 0x100_0000_0000;

/// Twice the signed area of the triangle `a`, `b`, `p`: positive when the
/// three points wind counterclockwise.
pub open spec fn orient_spec(ax: int, ay: int, bx: int, by: int, px: int, py: int) -> int {
    (bx - ax) * (py - ay) - (by - ay) * (px - ax)
}

/// Twice the signed area of the triangle.
pub open spec fn area_spec(v0: Vertex, v1: Vertex, v2: Vertex) -> int {
    orient_spec(v0.x as int, v0.y as int, v1.x as int, v1.y as int, v2.x as int, v2.y as int)
}

/// The edge weight of vertex 0 at pixel `(px, py)`.
pub open spec fn w0_spec(v0: Vertex, v1: Vertex, v2: Vertex, px: int, py: int) -> int {
    orient_spec(v1.x as int, v1.y as int, v2.x as int, v2.y as int, 256 * px, 256 * py)
}

/// The edge weight of vertex 1 at pixel `(px, py)`.
pub open spec fn w1_spec(v0: Vertex, v1: Vertex, v2: Vertex, px: int, py: int) -> int {
    orient_spec(v2.x as int, v2.y as int, v0.x as int, v0.y as int, 256 * px, 256 * py)
}

/// The edge weight of vertex 2 at pixel `(px, py)`.
pub open spec fn w2_spec(v0: Vertex, v1: Vertex, v2: Vertex, px: int, py: int) -> int {
    orient_spec(v0.x as int, v0.y as int, v1.x as int, v1.y as int, 256 * px, 256 * py)
}

/// The pixel `(px, py)` is covered by the triangle: the triangle is not
/// degenerate, and all three barycentric edge weights are on the area's
/// side of zero, zero included (the inclusive edge rule).
pub open spec fn covered_spec(v0: Vertex, v1: Vertex, v2: Vertex, px: int, py: int) -> bool {
    let a = area_spec(v0, v1, v2);
    let w0 = w0_spec(v0, v1, v2, px, py);
    let w1 = w1_spec(v0, v1, v2, px, py);
    let w2 = w2_spec(v0, v1, v2, px, py);
    &&& a != 0
    &&& (a > 0 ==> w0 >= 0 && w1 >= 0 && w2 >= 0)
    &&& (a < 0 ==> w0 <= 0 && w1 <= 0 && w2 <= 0)
}

/// The numerator of the interpolated depth at `(px, py)`: the sign-
/// normalized edge weights applied to the three vertex depths.
pub open spec fn depth_num_spec(v0: Vertex, v1: Vertex, v2: Vertex, px: int, py: int) -> int {
    let a = area_spec(v0, v1, v2);
    let w0 = w0_spec(v0, v1, v2, px, py);
    let w1 = w1_spec(v0, v1, v2, px, py);
    let w2 = w2_spec(v0, v1, v2, px, py);
    if a > 0 {
        w0 * (v0.z as int) + w1 * (v1.z as int) + w2 * (v2.z as int)
    } else {
        (-w0) * (v0.z as int) + (-w1) * (v1.z as int) + (-w2) * (v2.z as int)
    }
}

/// The interpolated depth at `(px, py)`: the barycentric weighting of the
/// three vertex depths, floor-divided by the triangle's absolute area.
pub open spec fn depth_spec(v0: Vertex, v1: Vertex, v2: Vertex, px: int, py: int) -> int {
    let a = area_spec(v0, v1, v2);
    let ua = if a > 0 { a } else { -a };
    depth_num_spec(v0, v1, v2, px, py) / ua
}

/// One product of differences, written out as monomials.
proof fn lemma_expand_product(a: int, b: int, c: int, d: int)
    ensures
        (a - b) * (c - d) == a * c - a * d - b * c + b * d,
{
    assert((a - b) * (c - d) == a * c - a * d - b * c + b * d) by (nonlinear_arith);
}

/// The three edge weights at any point sum to the triangle's area.
pub proof fn lemma_weights_sum(
    x0: int, y0: int, x1: int, y1: int, x2: int, y2: int, px: int, py: int,
)
    ensures
        orient_spec(x1, y1, x2, y2, px, py) + orient_spec(x2, y2, x0, y0, px, py) + orient_spec(
            x0, y0, x1, y1, px, py,
        ) == orient_spec(x0, y0, x1, y1, x2, y2),
{
    lemma_expand_product(x2, x1, py, y1);
    lemma_expand_product(y2, y1, px, x1);
    lemma_expand_product(x0, x2, py, y2);
    lemma_expand_product(y0, y2, px, x2);
    lemma_expand_product(x1, x0, py, y0);
    lemma_expand_product(y1, y0, px, x0);
    lemma_expand_product(x1, x0, y2, y0);
    lemma_expand_product(y1, y0, x2, x0);
}

/// Some fragment of `frags` sits at pixel `(px, py)`.
pub open spec fn has_frag(frags: Seq<Fragment>, px: int, py: int) -> bool {
    exists|i: int| 0 <= i < frags.len() && frags[i].x == px && frags[i].y == py
}

proof fn lemma_has_frag_push(s: Seq<Fragment>, f: Fragment, qx: int, qy: int)
    requires
        has_frag(s, qx, qy),
    ensures
        has_frag(s.push(f), qx, qy),
{
    let i = choose|i: int| 0 <= i < s.len() && s[i].x == qx && s[i].y == qy;
    assert(s.push(f)[i] == s[i]);
    assert(0 <= i < s.push(f).len() && s.push(f)[i].x == qx && s.push(f)[i].y == qy);
}

/// Swapping the two coordinate axes negates an orientation.
proof fn lemma_orient_swap(ax: int, ay: int, bx: int, by: int, px: int, py: int)
    ensures
        orient_spec(ay, ax, by, bx, py, px) == -orient_spec(ax, ay, bx, by, px, py),
{
}

/// The barycentric identity for one coordinate: the edge weights
/// recombine the vertex coordinates into the query point, scaled by the
/// area.
proof fn lemma_bary_coord(x0: int, y0: int, x1: int, y1: int, x2: int, y2: int, px: int, py: int)
    ensures
        orient_spec(x1, y1, x2, y2, px, py) * x0 + orient_spec(x2, y2, x0, y0, px, py) * x1
            + orient_spec(x0, y0, x1, y1, px, py) * x2 == orient_spec(x0, y0, x1, y1, x2, y2) * px,
{
    let a = orient_spec(x0, y0, x1, y1, x2, y2);
    let w0 = orient_spec(x1, y1, x2, y2, px, py);
    let w1 = orient_spec(x2, y2, x0, y0, px, py);
    let w2 = orient_spec(x0, y0, x1, y1, px, py);
    let pp = px - x0;
    let q = py - y0;
    let u = x1 - x0;
    let v = y1 - y0;
    let ss = x2 - x0;
    let t = y2 - y0;
    // w1, written over the differences from vertex 0
    lemma_expand_product(x0, x2, py, y2);
    lemma_expand_product(y0, y2, px, x2);
    lemma_expand_product(y2, y0, px, x0);
    lemma_expand_product(x2, x0, py, y0);
    assert(w1 == t * pp - ss * q);
    assert(w2 == u * q - v * pp);
    assert(a == u * t - v * ss);
    // the identity over the differences
    assert((t * pp - ss * q) * u == (t * pp) * u - (ss * q) * u) by (nonlinear_arith);
    assert((u * q - v * pp) * ss == (u * q) * ss - (v * pp) * ss) by (nonlinear_arith);
    assert((u * t - v * ss) * pp == (u * t) * pp - (v * ss) * pp) by (nonlinear_arith);
    assert((ss * q) * u == (u * q) * ss) by (nonlinear_arith);
    assert((v * pp) * ss == (v * ss) * pp) by (nonlinear_arith);
    assert((t * pp) * u == (u * t) * pp) by (nonlinear_arith);
    assert(w1 * u + w2 * ss == a * pp);
    // fold the differences back into absolute coordinates
    lemma_weights_sum(x0, y0, x1, y1, x2, y2, px, py);
    assert(w1 * x1 == w1 * x0 + w1 * u) by (nonlinear_arith)
        requires
            u == x1 - x0,
    ;
    assert(w2 * x2 == w2 * x0 + w2 * ss) by (nonlinear_arith)
        requires
            ss == x2 - x0,
    ;
    assert(a * px == a * x0 + a * pp) by (nonlinear_arith)
        requires
            pp == px - x0,
    ;
    assert((w0 + w1 + w2) * x0 == w0 * x0 + w1 * x0 + w2 * x0) by (nonlinear_arith);
}

/// A nonnegative weighted average lies between the least and the greatest
/// of the averaged values.
proof fn lemma_weighted_in_range(
    u0: int, u1: int, u2: int, ua: int, c0: int, c1: int, c2: int, q: int,
)
    requires
        u0 >= 0,
        u1 >= 0,
        u2 >= 0,
        ua > 0,
        u0 + u1 + u2 == ua,
        u0 * c0 + u1 * c1 + u2 * c2 == ua * q,
    ensures
        vstd::math::min(vstd::math::min(c0, c1), c2) <= q,
        q <= vstd::math::max(vstd::math::max(c0, c1), c2),
{
    let mn = vstd::math::min(vstd::math::min(c0, c1), c2);
    let mx = vstd::math::max(vstd::math::max(c0, c1), c2);
    assert(u0 * c0 <= u0 * mx) by (nonlinear_arith)
        requires
            u0 >= 0,
            c0 <= mx,
    ;
    assert(u1 * c1 <= u1 * mx) by (nonlinear_arith)
        requires
            u1 >= 0,
            c1 <= mx,
    ;
    assert(u2 * c2 <= u2 * mx) by (nonlinear_arith)
        requires
            u2 >= 0,
            c2 <= mx,
    ;
    assert((u0 + u1 + u2) * mx == u0 * mx + u1 * mx + u2 * mx) by (nonlinear_arith);
    assert(q <= mx) by (nonlinear_arith)
        requires
            ua * q <= ua * mx,
            ua > 0,
    ;
    assert(u0 * mn <= u0 * c0) by (nonlinear_arith)
        requires
            u0 >= 0,
            mn <= c0,
    ;
    assert(u1 * mn <= u1 * c1) by (nonlinear_arith)
        requires
            u1 >= 0,
            mn <= c1,
    ;
    assert(u2 * mn <= u2 * c2) by (nonlinear_arith)
        requires
            u2 >= 0,
            mn <= c2,
    ;
    assert((u0 + u1 + u2) * mn == u0 * mn + u1 * mn + u2 * mn) by (nonlinear_arith);
    assert(mn <= q) by (nonlinear_arith)
        requires
            ua * mn <= ua * q,
            ua > 0,
    ;
}

/// A covered pixel's center lies within the triangle's coordinate range
/// on both axes.
proof fn lemma_covered_in_box(v0: Vertex, v1: Vertex, v2: Vertex, px: int, py: int)
    requires
        covered_spec(v0, v1, v2, px, py),
    ensures
        vstd::math::min(vstd::math::min(v0.x as int, v1.x as int), v2.x as int) <= 256 * px,
        256 * px <= vstd::math::max(vstd::math::max(v0.x as int, v1.x as int), v2.x as int),
        vstd::math::min(vstd::math::min(v0.y as int, v1.y as int), v2.y as int) <= 256 * py,
        256 * py <= vstd::math::max(vstd::math::max(v0.y as int, v1.y as int), v2.y as int),
{
    let x0 = v0.x as int;
    let y0 = v0.y as int;
    let x1 = v1.x as int;
    let y1 = v1.y as int;
    let x2 = v2.x as int;
    let y2 = v2.y as int;
    let qx = 256 * px;
    let qy = 256 * py;
    let a = area_spec(v0, v1, v2);
    let w0 = w0_spec(v0, v1, v2, px, py);
    let w1 = w1_spec(v0, v1, v2, px, py);
    let w2 = w2_spec(v0, v1, v2, px, py);
    lemma_weights_sum(x0, y0, x1, y1, x2, y2, qx, qy);
    lemma_bary_coord(x0, y0, x1, y1, x2, y2, qx, qy);
    // the same identity on the y axis, through the axis swap
    lemma_bary_coord(y0, x0, y1, x1, y2, x2, qy, qx);
    lemma_orient_swap(x1, y1, x2, y2, qx, qy);
    lemma_orient_swap(x2, y2, x0, y0, qx, qy);
    lemma_orient_swap(x0, y0, x1, y1, qx, qy);
    lemma_orient_swap(x0, y0, x1, y1, x2, y2);
    vstd::arithmetic::mul::lemma_mul_unary_negation(w0, y0);
    vstd::arithmetic::mul::lemma_mul_unary_negation(w1, y1);
    vstd::arithmetic::mul::lemma_mul_unary_negation(w2, y2);
    vstd::arithmetic::mul::lemma_mul_unary_negation(a, qy);
    assert(w0 * y0 + w1 * y1 + w2 * y2 == a * qy);
    let u0 = if a > 0 { w0 } else { -w0 };
    let u1 = if a > 0 { w1 } else { -w1 };
    let u2 = if a > 0 { w2 } else { -w2 };
    let ua = if a > 0 { a } else { -a };
    if a < 0 {
        vstd::arithmetic::mul::lemma_mul_unary_negation(w0, x0);
        vstd::arithmetic::mul::lemma_mul_unary_negation(w1, x1);
        vstd::arithmetic::mul::lemma_mul_unary_negation(w2, x2);
        vstd::arithmetic::mul::lemma_mul_unary_negation(a, qx);
    }
    assert(u0 * x0 + u1 * x1 + u2 * x2 == ua * qx);
    assert(u0 * y0 + u1 * y1 + u2 * y2 == ua * qy);
    lemma_weighted_in_range(u0, u1, u2, ua, x0, x1, x2, qx);
    lemma_weighted_in_range(u0, u1, u2, ua, y0, y1, y2, qy);
}

fn orient(ax: i64, ay: i64, bx: i64, by: i64, px: i64, py: i64) -> (w: i128)
    requires
        -0x200_0000_0000 <= ax <= 0x200_0000_0000,
        -0x200_0000_0000 <= ay <= 0x200_0000_0000,
        -0x200_0000_0000 <= bx <= 0x200_0000_0000,
        -0x200_0000_0000 <= by <= 0x200_0000_0000,
        -0x200_0000_0000 <= px <= 0x200_0000_0000,
        -0x200_0000_0000 <= py <= 0x200_0000_0000,
    ensures
        w == orient_spec(ax as int, ay as int, bx as int, by as int, px as int, py as int),
        -(0x400_0000_0000 * 0x400_0000_0000 * 2) <= w <= 0x400_0000_0000 * 0x400_0000_0000 * 2,
{
    proof {
        lemma_mul_bound(bx - ax, py - ay, 0x400_0000_0000, 0x400_0000_0000);
        lemma_mul_bound(by - ay, px - ax, 0x400_0000_0000, 0x400_0000_0000);
    }
    ((bx - ax) as i128) * ((py - ay) as i128) - ((by - ay) as i128) * ((px - ax) as i128)
}

fn min3(a: i64, b: i64, c: i64) -> (r: i64)
    ensures
        r as int == vstd::math::min(vstd::math::min(a as int, b as int), c as int),
{
    let m = if a <= b { a } else { b };
    if m <= c { m } else { c }
}

fn max3(a: i64, b: i64, c: i64) -> (r: i64)
    ensures
        r as int == vstd::math::max(vstd::math::max(a as int, b as int), c as int),
{
    let m = if a >= b { a } else { b };
    if m >= c { m } else { c }
}

/// Law: at the centroid of any non-degenerate triangle the interpolated
/// depth is the arithmetic mean of the three vertex depths. Three times
/// the depth numerator equals the absolute area times the sum of the
/// depths, so the exact barycentric depth at the centroid is
/// `(z0 + z1 + z2) / 3`.
pub proof fn lemma_centroid_depth(v0: Vertex, v1: Vertex, v2: Vertex, px: int, py: int)
    requires
        area_spec(v0, v1, v2) != 0,
        3 * (256 * px) == v0.x + v1.x + v2.x,
        3 * (256 * py) == v0.y + v1.y + v2.y,
    ensures
        3 * depth_num_spec(v0, v1, v2, px, py) == (if area_spec(v0, v1, v2) > 0 {
            area_spec(v0, v1, v2)
        } else {
            -area_spec(v0, v1, v2)
        }) * ((v0.z + v1.z + v2.z) as int),
{
    let x0 = v0.x as int;
    let y0 = v0.y as int;
    let x1 = v1.x as int;
    let y1 = v1.y as int;
    let x2 = v2.x as int;
    let y2 = v2.y as int;
    let z0 = v0.z as int;
    let z1 = v1.z as int;
    let z2 = v2.z as int;
    let xx = 256 * px;
    let yy = 256 * py;
    let a = area_spec(v0, v1, v2);
    let w0 = w0_spec(v0, v1, v2, px, py);
    let w1 = w1_spec(v0, v1, v2, px, py);
    let w2 = w2_spec(v0, v1, v2, px, py);
    lemma_expand_product(x2, x1, yy, y1);
    lemma_expand_product(y2, y1, xx, x1);
    lemma_expand_product(x0, x2, yy, y2);
    lemma_expand_product(y0, y2, xx, x2);
    lemma_expand_product(x1, x0, yy, y0);
    lemma_expand_product(y1, y0, xx, x0);
    lemma_expand_product(x1, x0, y2, y0);
    lemma_expand_product(y1, y0, x2, x0);
    assert(3 * (x0 * yy) == x0 * y0 + x0 * y1 + x0 * y2) by (nonlinear_arith)
        requires
            3 * yy == y0 + y1 + y2,
    ;
    assert(3 * (x1 * yy) == x1 * y0 + x1 * y1 + x1 * y2) by (nonlinear_arith)
        requires
            3 * yy == y0 + y1 + y2,
    ;
    assert(3 * (x2 * yy) == x2 * y0 + x2 * y1 + x2 * y2) by (nonlinear_arith)
        requires
            3 * yy == y0 + y1 + y2,
    ;
    assert(3 * (y0 * xx) == y0 * x0 + y0 * x1 + y0 * x2) by (nonlinear_arith)
        requires
            3 * xx == x0 + x1 + x2,
    ;
    assert(3 * (y1 * xx) == y1 * x0 + y1 * x1 + y1 * x2) by (nonlinear_arith)
        requires
            3 * xx == x0 + x1 + x2,
    ;
    assert(3 * (y2 * xx) == y2 * x0 + y2 * x1 + y2 * x2) by (nonlinear_arith)
        requires
            3 * xx == x0 + x1 + x2,
    ;
    assert(3 * w0 == a);
    assert(3 * w1 == a);
    assert(3 * w2 == a);
    if a > 0 {
        assert(3 * (w0 * z0) == (3 * w0) * z0) by (nonlinear_arith);
        assert(3 * (w1 * z1) == (3 * w1) * z1) by (nonlinear_arith);
        assert(3 * (w2 * z2) == (3 * w2) * z2) by (nonlinear_arith);
        assert(a * z0 + a * z1 + a * z2 == a * (z0 + z1 + z2)) by (nonlinear_arith);
    } else {
        vstd::arithmetic::mul::lemma_mul_unary_negation(w0, z0);
        vstd::arithmetic::mul::lemma_mul_unary_negation(w1, z1);
        vstd::arithmetic::mul::lemma_mul_unary_negation(w2, z2);
        assert(3 * ((-w0) * z0) == -(3 * (w0 * z0))) by (nonlinear_arith);
        assert(3 * ((-w1) * z1) == -(3 * (w1 * z1))) by (nonlinear_arith);
        assert(3 * ((-w2) * z2) == -(3 * (w2 * z2))) by (nonlinear_arith);
        assert(3 * (w0 * z0) == (3 * w0) * z0) by (nonlinear_arith);
        assert(3 * (w1 * z1) == (3 * w1) * z1) by (nonlinear_arith);
        assert(3 * (w2 * z2) == (3 * w2) * z2) by (nonlinear_arith);
        assert((-a) * (z0 + z1 + z2) == -(a * z0 + a * z1 + a * z2)) by (nonlinear_arith);
    }
}

/// Rasterizes the triangle `v0 v1 v2`: walks the integer pixels of the
/// triangle's bounding box in row-major order and emits one fragment for
/// every covered pixel center, carrying the barycentric depth there, and
/// for no other pixel; each covered pixel appears exactly once, in
/// row-major order. A degenerate (zero-area) triangle yields no
/// fragments.
pub fn triangle(v0: &Vertex, v1: &Vertex, v2: &Vertex) -> (frags: Vec<Fragment>)
    requires
        -LIM_RASTER <= v0.x <= LIM_RASTER,
        -LIM_RASTER <= v0.y <= LIM_RASTER,
        -LIM_RASTER <= v0.z <= LIM_RASTER,
        -LIM_RASTER <= v1.x <= LIM_RASTER,
        -LIM_RASTER <= v1.y <= LIM_RASTER,
        -LIM_RASTER <= v1.z <= LIM_RASTER,
        -LIM_RASTER <= v2.x <= LIM_RASTER,
        -LIM_RASTER <= v2.y <= LIM_RASTER,
        -LIM_RASTER <= v2.z <= LIM_RASTER,
    ensures
        area_spec(*v0, *v1, *v2) == 0 ==> frags@.len() == 0,
        forall|i: int| 0 <= i < frags@.len() ==> covered_spec(
            *v0, *v1, *v2, #[trigger] frags@[i].x as int, frags@[i].y as int,
        ),
        forall|i: int| 0 <= i < frags@.len() ==> #[trigger] frags@[i].depth as int == depth_spec(
            *v0, *v1, *v2, frags@[i].x as int, frags@[i].y as int,
        ),
        forall|i: int| 0 <= i < frags@.len() ==> -0x2_0000_0000 <= #[trigger] frags@[i].x
            <= 0x2_0000_0000 && -0x2_0000_0000 <= frags@[i].y <= 0x2_0000_0000,
        forall|qx: int, qy: int| #[trigger] covered_spec(*v0, *v1, *v2, qx, qy) ==> has_frag(
            frags@, qx, qy,
        ),
        forall|i: int, j: int|
            #![trigger frags@[i], frags@[j]]
            0 <= i < j < frags@.len() ==> frags@[i].y < frags@[j].y || (frags@[i].y == frags@[j].y
                && frags@[i].x < frags@[j].x),
{
    let mut frags: Vec<Fragment> = Vec::new();
    let area = orient(v0.x, v0.y, v1.x, v1.y, v2.x, v2.y);
    if area == 0 {
        return frags;
    }
    let mnx = min3(v0.x, v1.x, v2.x);
    let mxx = max3(v0.x, v1.x, v2.x);
    let mny = min3(v0.y, v1.y, v2.y);
    let mxy = max3(v0.y, v1.y, v2.y);
    let xlo = floor_div_i64(mnx, FX_ONE);
    let xhi = floor_div_i64(mxx, FX_ONE);
    let ylo = floor_div_i64(mny, FX_ONE);
    let yhi = floor_div_i64(mxy, FX_ONE);
    proof {
        lemma_div_bound(mnx as int, LIM_RASTER as int, 256);
        lemma_div_bound(mxx as int, LIM_RASTER as int, 256);
        lemma_div_bound(mny as int, LIM_RASTER as int, 256);
        lemma_div_bound(mxy as int, LIM_RASTER as int, 256);
        vstd::arithmetic::div_mod::lemma_div_is_ordered(mnx as int, mxx as int, 256);
        vstd::arithmetic::div_mod::lemma_div_is_ordered(mny as int, mxy as int, 256);
        assert forall|qx: int, qy: int| #[trigger] covered_spec(*v0, *v1, *v2, qx, qy) implies xlo
            <= qx <= xhi && ylo <= qy <= yhi by {
            lemma_covered_in_box(*v0, *v1, *v2, qx, qy);
            vstd::arithmetic::div_mod::lemma_div_is_ordered(mnx as int, 256 * qx, 256);
            vstd::arithmetic::div_mod::lemma_div_is_ordered(256 * qx, mxx as int, 256);
            vstd::arithmetic::div_mod::lemma_div_multiples_vanish(qx, 256);
            vstd::arithmetic::div_mod::lemma_div_is_ordered(mny as int, 256 * qy, 256);
            vstd::arithmetic::div_mod::lemma_div_is_ordered(256 * qy, mxy as int, 256);
            vstd::arithmetic::div_mod::lemma_div_multiples_vanish(qy, 256);
        }
    }
    let mut py: i64 = ylo;
    while py <= yhi
        invariant
            ylo <= py <= yhi + 1,
            -0x1_0000_0001 <= ylo,
            yhi <= 0x1_0000_0000,
            -0x1_0000_0001 <= xlo,
            xhi <= 0x1_0000_0000,
            xlo <= xhi,
            area != 0,
            area == area_spec(*v0, *v1, *v2),
            -LIM_RASTER <= v0.x <= LIM_RASTER,
            -LIM_RASTER <= v0.y <= LIM_RASTER,
            -LIM_RASTER <= v0.z <= LIM_RASTER,
            -LIM_RASTER <= v1.x <= LIM_RASTER,
            -LIM_RASTER <= v1.y <= LIM_RASTER,
            -LIM_RASTER <= v1.z <= LIM_RASTER,
            -LIM_RASTER <= v2.x <= LIM_RASTER,
            -LIM_RASTER <= v2.y <= LIM_RASTER,
            -LIM_RASTER <= v2.z <= LIM_RASTER,
            forall|qx: int, qy: int| #[trigger] covered_spec(*v0, *v1, *v2, qx, qy) ==> xlo <= qx
                <= xhi && ylo <= qy <= yhi,
            forall|i: int| 0 <= i < frags@.len() ==> covered_spec(
                *v0, *v1, *v2, #[trigger] frags@[i].x as int, frags@[i].y as int,
            ),
            forall|i: int| 0 <= i < frags@.len() ==> #[trigger] frags@[i].depth as int
                == depth_spec(*v0, *v1, *v2, frags@[i].x as int, frags@[i].y as int),
            forall|i: int| 0 <= i < frags@.len() ==> -0x2_0000_0000 <= #[trigger] frags@[i].x
                <= 0x2_0000_0000 && -0x2_0000_0000 <= frags@[i].y <= 0x2_0000_0000,
            forall|qx: int, qy: int| #[trigger] covered_spec(*v0, *v1, *v2, qx, qy) && qy < py
                ==> has_frag(frags@, qx, qy),
            forall|i: int| 0 <= i < frags@.len() ==> #[trigger] frags@[i].y < py,
            forall|i: int, j: int|
                #![trigger frags@[i], frags@[j]]
                0 <= i < j < frags@.len() ==> frags@[i].y < frags@[j].y || (frags@[i].y
                    == frags@[j].y && frags@[i].x < frags@[j].x),
        decreases yhi + 1 - py,
    {
        let mut px: i64 = xlo;
        while px <= xhi
            invariant
                xlo <= px <= xhi + 1,
                ylo <= py <= yhi,
                -0x1_0000_0001 <= xlo,
                xhi <= 0x1_0000_0000,
                -0x1_0000_0001 <= ylo,
                yhi <= 0x1_0000_0000,
                area != 0,
                area == area_spec(*v0, *v1, *v2),
                -LIM_RASTER <= v0.x <= LIM_RASTER,
                -LIM_RASTER <= v0.y <= LIM_RASTER,
                -LIM_RASTER <= v0.z <= LIM_RASTER,
                -LIM_RASTER <= v1.x <= LIM_RASTER,
                -LIM_RASTER <= v1.y <= LIM_RASTER,
                -LIM_RASTER <= v1.z <= LIM_RASTER,
                -LIM_RASTER <= v2.x <= LIM_RASTER,
                -LIM_RASTER <= v2.y <= LIM_RASTER,
                -LIM_RASTER <= v2.z <= LIM_RASTER,
                forall|qx: int, qy: int| #[trigger] covered_spec(*v0, *v1, *v2, qx, qy) ==> xlo
                    <= qx <= xhi && ylo <= qy <= yhi,
                forall|i: int| 0 <= i < frags@.len() ==> covered_spec(
                    *v0, *v1, *v2, #[trigger] frags@[i].x as int, frags@[i].y as int,
                ),
                forall|i: int| 0 <= i < frags@.len() ==> #[trigger] frags@[i].depth as int
                    == depth_spec(*v0, *v1, *v2, frags@[i].x as int, frags@[i].y as int),
                forall|i: int| 0 <= i < frags@.len() ==> -0x2_0000_0000 <= #[trigger] frags@[i].x
                    <= 0x2_0000_0000 && -0x2_0000_0000 <= frags@[i].y <= 0x2_0000_0000,
                forall|qx: int, qy: int| #[trigger] covered_spec(*v0, *v1, *v2, qx, qy) && (qy < py
                    || (qy == py && qx < px)) ==> has_frag(frags@, qx, qy),
                forall|i: int| 0 <= i < frags@.len() ==> #[trigger] frags@[i].y < py || (
                frags@[i].y == py && frags@[i].x < px),
                forall|i: int, j: int|
                    #![trigger frags@[i], frags@[j]]
                    0 <= i < j < frags@.len() ==> frags@[i].y < frags@[j].y || (frags@[i].y
                        == frags@[j].y && frags@[i].x < frags@[j].x),
            decreases xhi + 1 - px,
        {
            let pxs = px * FX_ONE;
            let pys = py * FX_ONE;
            let w0 = orient(v1.x, v1.y, v2.x, v2.y, pxs, pys);
            let w1 = orient(v2.x, v2.y, v0.x, v0.y, pxs, pys);
            let w2 = orient(v0.x, v0.y, v1.x, v1.y, pxs, pys);
            let inside = if area > 0 {
                w0 >= 0 && w1 >= 0 && w2 >= 0
            } else {
                w0 <= 0 && w1 <= 0 && w2 <= 0
            };
            if inside {
                proof {
                    lemma_weights_sum(
                        v0.x as int, v0.y as int, v1.x as int, v1.y as int, v2.x as int,
                        v2.y as int, pxs as int, pys as int,
                    );
                }
                let (u0, u1, u2, ua) = if area > 0 {
                    (w0, w1, w2, area)
                } else {
                    (-w0, -w1, -w2, -area)
                };
                proof {
                    lemma_mul_bound(
                        v1.x as int - v0.x as int, v2.y as int - v0.y as int,
                        0x200_0000_0000, 0x200_0000_0000,
                    );
                    lemma_mul_bound(
                        v1.y as int - v0.y as int, v2.x as int - v0.x as int,
                        0x200_0000_0000, 0x200_0000_0000,
                    );
                    lemma_mul_bound(u0 as int, v0.z as int, ua as int, LIM_RASTER as int);
                    lemma_mul_bound(u1 as int, v1.z as int, ua as int, LIM_RASTER as int);
                    lemma_mul_bound(u2 as int, v2.z as int, ua as int, LIM_RASTER as int);
                    lemma_mul_bound(
                        ua as int, LIM_RASTER as int,
                        0x200_0000_0000int * 0x200_0000_0000 * 2, LIM_RASTER as int,
                    );
                }
                let num = u0 * (v0.z as i128) + u1 * (v1.z as i128) + u2 * (v2.z as i128);
                proof {
                    assert((ua as int) * (3 * (LIM_RASTER as int)) == 3 * ((ua as int)
                        * (LIM_RASTER as int))) by (nonlinear_arith);
                    lemma_div_bound(num as int, (ua as int) * (3 * (LIM_RASTER as int)), ua as int);
                    vstd::arithmetic::div_mod::lemma_div_multiples_vanish(
                        3 * (LIM_RASTER as int), ua as int,
                    );
                }
                let depth = floor_div_i128(num, ua) as i64;
                let f = Fragment { x: px, y: py, depth };
                let ghost pre = frags@;
                frags.push(f);
                proof {
                    assert(frags@ == pre.push(f));
                    assert(frags@[pre.len() as int] == f);
                    assert(has_frag(frags@, px as int, py as int));
                    assert forall|i: int| 0 <= i < frags@.len() implies frags@[i] == if i
                        < pre.len() { pre[i] } else { f } by {}
                    assert forall|qx: int, qy: int| #[trigger] covered_spec(
                        *v0, *v1, *v2, qx, qy,
                    ) && (qy < py || (qy == py && qx < px + 1)) implies has_frag(
                        frags@, qx, qy,
                    ) by {
                        if qy == py as int && qx == px as int {
                        } else {
                            lemma_has_frag_push(pre, f, qx, qy);
                        }
                    }
                }
            } else {
                proof {
                    assert(!covered_spec(*v0, *v1, *v2, px as int, py as int));
                    assert forall|qx: int, qy: int| #[trigger] covered_spec(
                        *v0, *v1, *v2, qx, qy,
                    ) && (qy < py || (qy == py && qx < px + 1)) implies has_frag(
                        frags@, qx, qy,
                    ) by {
                        if qy == py as int && qx == px as int {
                            assert(false);
                        }
                    }
                }
            }
            px = px + 1;
        }
        py = py + 1;
    }
    frags
}

} // verus!
