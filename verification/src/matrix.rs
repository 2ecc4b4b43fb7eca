//! 4x4 affine transforms over fixed-point scalars: construction of the
//! elementary scale / rotation / translation matrices, composition, and
//! application to a point with an implicit homogeneous coordinate of one.

use vstd::prelude::*;
use crate::fixed::FX_ONE;
use crate::fixed::scale_down;
use crate::fixed::lemma_mul_bound;
use crate::fixed::lemma_div_bound;

verus! {

/// Largest entry magnitude two matrices may have to be composed.
pub const LIM_MUL: i64 = 0x4_0000_0000;

/// A 4x4 matrix of fixed-point scalars, row major: `mRC` is row R, column C.
/// Points transform as column vectors, so column 3 carries the translation.
#[derive(Clone, Copy, PartialEq, Eq, Structural, Debug)]
pub struct Matrix4 {
    pub m00: i64,
    pub m01: i64,
    pub m02: i64,
    pub m03: i64,
    pub m10: i64,
    pub m11: i64,
    pub m12: i64,
    pub m13: i64,
    pub m20: i64,
    pub m21: i64,
    pub m22: i64,
    pub m23: i64,
    pub m30: i64,
    pub m31: i64,
    pub m32: i64,
    pub m33: i64,
}

/// The entry of `m` at row `r`, column `c`, as a mathematical integer.
pub open spec fn entry(m: Matrix4, r: int, c: int) -> int {
    if r == 0 {
        if c == 0 { m.m00 as int } else if c == 1 { m.m01 as int }
        else if c == 2 { m.m02 as int } else { m.m03 as int }
    } else if r == 1 {
        if c == 0 { m.m10 as int } else if c == 1 { m.m11 as int }
        else if c == 2 { m.m12 as int } else { m.m13 as int }
    } else if r == 2 {
        if c == 0 { m.m20 as int } else if c == 1 { m.m21 as int }
        else if c == 2 { m.m22 as int } else { m.m23 as int }
    } else {
        if c == 0 { m.m30 as int } else if c == 1 { m.m31 as int }
        else if c == 2 { m.m32 as int } else { m.m33 as int }
    }
}

/// Every entry of `m` has magnitude at most `b`.
pub open spec fn mat_bounded(m: Matrix4, b: int) -> bool {
    &&& -b <= m.m00 <= b
    &&& -b <= m.m01 <= b
    &&& -b <= m.m02 <= b
    &&& -b <= m.m03 <= b
    &&& -b <= m.m10 <= b
    &&& -b <= m.m11 <= b
    &&& -b <= m.m12 <= b
    &&& -b <= m.m13 <= b
    &&& -b <= m.m20 <= b
    &&& -b <= m.m21 <= b
    &&& -b <= m.m22 <= b
    &&& -b <= m.m23 <= b
    &&& -b <= m.m30 <= b
    &&& -b <= m.m31 <= b
    &&& -b <= m.m32 <= b
    &&& -b <= m.m33 <= b
}

/// The bottom row is `(0, 0, 0, 1)`: the matrix maps affine points to
/// affine points. Every matrix this crate constructs has this shape.
pub open spec fn is_affine(m: Matrix4) -> bool {
    &&& m.m30 == 0
    &&& m.m31 == 0
    &&& m.m32 == 0
    &&& m.m33 == FX_ONE
}

/// A fixed-point dot product of four entry pairs, floor-scaled back down.
pub open spec fn dot4_spec(a0: int, a1: int, a2: int, a3: int, b0: int, b1: int, b2: int, b3: int) -> int {
    (a0 * b0 + a1 * b1 + a2 * b2 + a3 * b3) / (FX_ONE as int)
}

/// The matrix product `a * b` under the column-vector convention:
/// applying the result is applying `b` first, then `a`. Each entry is the
/// fixed-point dot product of a row of `a` with a column of `b`.
pub open spec fn spec_mul(a: Matrix4, b: Matrix4) -> Matrix4 {
    Matrix4 {
        m00: dot4_spec(a.m00 as int, a.m01 as int, a.m02 as int, a.m03 as int, b.m00 as int, b.m10 as int, b.m20 as int, b.m30 as int) as i64,
        m01: dot4_spec(a.m00 as int, a.m01 as int, a.m02 as int, a.m03 as int, b.m01 as int, b.m11 as int, b.m21 as int, b.m31 as int) as i64,
        m02: dot4_spec(a.m00 as int, a.m01 as int, a.m02 as int, a.m03 as int, b.m02 as int, b.m12 as int, b.m22 as int, b.m32 as int) as i64,
        m03: dot4_spec(a.m00 as int, a.m01 as int, a.m02 as int, a.m03 as int, b.m03 as int, b.m13 as int, b.m23 as int, b.m33 as int) as i64,
        m10: dot4_spec(a.m10 as int, a.m11 as int, a.m12 as int, a.m13 as int, b.m00 as int, b.m10 as int, b.m20 as int, b.m30 as int) as i64,
        m11: dot4_spec(a.m10 as int, a.m11 as int, a.m12 as int, a.m13 as int, b.m01 as int, b.m11 as int, b.m21 as int, b.m31 as int) as i64,
        m12: dot4_spec(a.m10 as int, a.m11 as int, a.m12 as int, a.m13 as int, b.m02 as int, b.m12 as int, b.m22 as int, b.m32 as int) as i64,
        m13: dot4_spec(a.m10 as int, a.m11 as int, a.m12 as int, a.m13 as int, b.m03 as int, b.m13 as int, b.m23 as int, b.m33 as int) as i64,
        m20: dot4_spec(a.m20 as int, a.m21 as int, a.m22 as int, a.m23 as int, b.m00 as int, b.m10 as int, b.m20 as int, b.m30 as int) as i64,
        m21: dot4_spec(a.m20 as int, a.m21 as int, a.m22 as int, a.m23 as int, b.m01 as int, b.m11 as int, b.m21 as int, b.m31 as int) as i64,
        m22: dot4_spec(a.m20 as int, a.m21 as int, a.m22 as int, a.m23 as int, b.m02 as int, b.m12 as int, b.m22 as int, b.m32 as int) as i64,
        m23: dot4_spec(a.m20 as int, a.m21 as int, a.m22 as int, a.m23 as int, b.m03 as int, b.m13 as int, b.m23 as int, b.m33 as int) as i64,
        m30: dot4_spec(a.m30 as int, a.m31 as int, a.m32 as int, a.m33 as int, b.m00 as int, b.m10 as int, b.m20 as int, b.m30 as int) as i64,
        m31: dot4_spec(a.m30 as int, a.m31 as int, a.m32 as int, a.m33 as int, b.m01 as int, b.m11 as int, b.m21 as int, b.m31 as int) as i64,
        m32: dot4_spec(a.m30 as int, a.m31 as int, a.m32 as int, a.m33 as int, b.m02 as int, b.m12 as int, b.m22 as int, b.m32 as int) as i64,
        m33: dot4_spec(a.m30 as int, a.m31 as int, a.m32 as int, a.m33 as int, b.m03 as int, b.m13 as int, b.m23 as int, b.m33 as int) as i64,
    }
}

/// The x coordinate of `m` applied to the point `(x, y, z, 1)`.
pub open spec fn transform_x_spec(m: Matrix4, x: int, y: int, z: int) -> int {
    dot4_spec(m.m00 as int, m.m01 as int, m.m02 as int, m.m03 as int, x, y, z, FX_ONE as int)
}

/// The y coordinate of `m` applied to the point `(x, y, z, 1)`.
pub open spec fn transform_y_spec(m: Matrix4, x: int, y: int, z: int) -> int {
    dot4_spec(m.m10 as int, m.m11 as int, m.m12 as int, m.m13 as int, x, y, z, FX_ONE as int)
}

/// The z coordinate of `m` applied to the point `(x, y, z, 1)`.
pub open spec fn transform_z_spec(m: Matrix4, x: int, y: int, z: int) -> int {
    dot4_spec(m.m20 as int, m.m21 as int, m.m22 as int, m.m23 as int, x, y, z, FX_ONE as int)
}

fn dot4(a0: i64, a1: i64, a2: i64, a3: i64, b0: i64, b1: i64, b2: i64, b3: i64) -> (r: i64)
    requires
        -LIM_MUL <= a0 <= LIM_MUL,
        -LIM_MUL <= a1 <= LIM_MUL,
        -LIM_MUL <= a2 <= LIM_MUL,
        -LIM_MUL <= a3 <= LIM_MUL,
        -LIM_MUL <= b0 <= LIM_MUL,
        -LIM_MUL <= b1 <= LIM_MUL,
        -LIM_MUL <= b2 <= LIM_MUL,
        -LIM_MUL <= b3 <= LIM_MUL,
    ensures
        r == dot4_spec(a0 as int, a1 as int, a2 as int, a3 as int, b0 as int, b1 as int, b2 as int, b3 as int),
{
    proof {
        lemma_mul_bound(a0 as int, b0 as int, LIM_MUL as int, LIM_MUL as int);
        lemma_mul_bound(a1 as int, b1 as int, LIM_MUL as int, LIM_MUL as int);
        lemma_mul_bound(a2 as int, b2 as int, LIM_MUL as int, LIM_MUL as int);
        lemma_mul_bound(a3 as int, b3 as int, LIM_MUL as int, LIM_MUL as int);
    }
    let s: i128 = (a0 as i128) * (b0 as i128) + (a1 as i128) * (b1 as i128) + (a2 as i128) * (b2 as i128)
        + (a3 as i128) * (b3 as i128);
    scale_down(s)
}

/// Composes two matrices: the result applies `b` first, then `a`.
pub fn matrix_mul(a: &Matrix4, b: &Matrix4) -> (m: Matrix4)
    requires
        mat_bounded(*a, LIM_MUL as int),
        mat_bounded(*b, LIM_MUL as int),
    ensures
        m == spec_mul(*a, *b),
{
    Matrix4 {
        m00: dot4(a.m00, a.m01, a.m02, a.m03, b.m00, b.m10, b.m20, b.m30),
        m01: dot4(a.m00, a.m01, a.m02, a.m03, b.m01, b.m11, b.m21, b.m31),
        m02: dot4(a.m00, a.m01, a.m02, a.m03, b.m02, b.m12, b.m22, b.m32),
        m03: dot4(a.m00, a.m01, a.m02, a.m03, b.m03, b.m13, b.m23, b.m33),
        m10: dot4(a.m10, a.m11, a.m12, a.m13, b.m00, b.m10, b.m20, b.m30),
        m11: dot4(a.m10, a.m11, a.m12, a.m13, b.m01, b.m11, b.m21, b.m31),
        m12: dot4(a.m10, a.m11, a.m12, a.m13, b.m02, b.m12, b.m22, b.m32),
        m13: dot4(a.m10, a.m11, a.m12, a.m13, b.m03, b.m13, b.m23, b.m33),
        m20: dot4(a.m20, a.m21, a.m22, a.m23, b.m00, b.m10, b.m20, b.m30),
        m21: dot4(a.m20, a.m21, a.m22, a.m23, b.m01, b.m11, b.m21, b.m31),
        m22: dot4(a.m20, a.m21, a.m22, a.m23, b.m02, b.m12, b.m22, b.m32),
        m23: dot4(a.m20, a.m21, a.m22, a.m23, b.m03, b.m13, b.m23, b.m33),
        m30: dot4(a.m30, a.m31, a.m32, a.m33, b.m00, b.m10, b.m20, b.m30),
        m31: dot4(a.m30, a.m31, a.m32, a.m33, b.m01, b.m11, b.m21, b.m31),
        m32: dot4(a.m30, a.m31, a.m32, a.m33, b.m02, b.m12, b.m22, b.m32),
        m33: dot4(a.m30, a.m31, a.m32, a.m33, b.m03, b.m13, b.m23, b.m33),
    }
}

/// Applies `m` to the point `(x, y, z)` with an implicit homogeneous
/// coordinate of one, returning the transformed coordinates.
pub fn transform_point(m: &Matrix4, x: i64, y: i64, z: i64) -> (r: (i64, i64, i64))
    requires
        mat_bounded(*m, LIM_MUL as int),
        -LIM_MUL <= x <= LIM_MUL,
        -LIM_MUL <= y <= LIM_MUL,
        -LIM_MUL <= z <= LIM_MUL,
    ensures
        r.0 == transform_x_spec(*m, x as int, y as int, z as int),
        r.1 == transform_y_spec(*m, x as int, y as int, z as int),
        r.2 == transform_z_spec(*m, x as int, y as int, z as int),
{
    (
        dot4(m.m00, m.m01, m.m02, m.m03, x, y, z, FX_ONE),
        dot4(m.m10, m.m11, m.m12, m.m13, x, y, z, FX_ONE),
        dot4(m.m20, m.m21, m.m22, m.m23, x, y, z, FX_ONE),
    )
}

/// The identity transform.
pub open spec fn spec_identity() -> Matrix4 {
    Matrix4 {
        m00: FX_ONE, m01: 0, m02: 0, m03: 0,
        m10: 0, m11: FX_ONE, m12: 0, m13: 0,
        m20: 0, m21: 0, m22: FX_ONE, m23: 0,
        m30: 0, m31: 0, m32: 0, m33: FX_ONE,
    }
}

/// Rotation about the x axis, from the sine and cosine of the angle.
pub open spec fn spec_rotation_x(s: i64, c: i64) -> Matrix4 {
    Matrix4 {
        m00: FX_ONE, m01: 0, m02: 0, m03: 0,
        m10: 0, m11: c, m12: ((-(s as int)) as i64), m13: 0,
        m20: 0, m21: s, m22: c, m23: 0,
        m30: 0, m31: 0, m32: 0, m33: FX_ONE,
    }
}

/// Rotation about the y axis, from the sine and cosine of the angle.
pub open spec fn spec_rotation_y(s: i64, c: i64) -> Matrix4 {
    Matrix4 {
        m00: c, m01: 0, m02: s, m03: 0,
        m10: 0, m11: FX_ONE, m12: 0, m13: 0,
        m20: ((-(s as int)) as i64), m21: 0, m22: c, m23: 0,
        m30: 0, m31: 0, m32: 0, m33: FX_ONE,
    }
}

/// Rotation about the z axis, from the sine and cosine of the angle.
pub open spec fn spec_rotation_z(s: i64, c: i64) -> Matrix4 {
    Matrix4 {
        m00: c, m01: ((-(s as int)) as i64), m02: 0, m03: 0,
        m10: s, m11: c, m12: 0, m13: 0,
        m20: 0, m21: 0, m22: FX_ONE, m23: 0,
        m30: 0, m31: 0, m32: 0, m33: FX_ONE,
    }
}

/// Uniform scale by the fixed-point factor `k`.
pub open spec fn spec_scale(k: i64) -> Matrix4 {
    Matrix4 {
        m00: k, m01: 0, m02: 0, m03: 0,
        m10: 0, m11: k, m12: 0, m13: 0,
        m20: 0, m21: 0, m22: k, m23: 0,
        m30: 0, m31: 0, m32: 0, m33: FX_ONE,
    }
}

/// Translation by `(tx, ty, tz)`.
pub open spec fn spec_translation(tx: i64, ty: i64, tz: i64) -> Matrix4 {
    Matrix4 {
        m00: FX_ONE, m01: 0, m02: 0, m03: tx,
        m10: 0, m11: FX_ONE, m12: 0, m13: ty,
        m20: 0, m21: 0, m22: FX_ONE, m23: tz,
        m30: 0, m31: 0, m32: 0, m33: FX_ONE,
    }
}

/// Packs sixteen scalars, given row by row, into a matrix.
pub fn new_matrix4(
    m00: i64, m01: i64, m02: i64, m03: i64,
    m10: i64, m11: i64, m12: i64, m13: i64,
    m20: i64, m21: i64, m22: i64, m23: i64,
    m30: i64, m31: i64, m32: i64, m33: i64,
) -> (m: Matrix4)
    ensures
        m == (Matrix4 {
            m00, m01, m02, m03,
            m10, m11, m12, m13,
            m20, m21, m22, m23,
            m30, m31, m32, m33,
        }),
{
    Matrix4 { m00, m01, m02, m03, m10, m11, m12, m13, m20, m21, m22, m23, m30, m31, m32, m33 }
}

/// The identity transform.
pub fn identity() -> (m: Matrix4)
    ensures
        m == spec_identity(),
{
    Matrix4 {
        m00: FX_ONE, m01: 0, m02: 0, m03: 0,
        m10: 0, m11: FX_ONE, m12: 0, m13: 0,
        m20: 0, m21: 0, m22: FX_ONE, m23: 0,
        m30: 0, m31: 0, m32: 0, m33: FX_ONE,
    }
}

/// Rotation about the x axis from a sine and cosine pair.
pub fn rotation_x(s: i64, c: i64) -> (m: Matrix4)
    requires
        -FX_ONE <= s <= FX_ONE,
        -FX_ONE <= c <= FX_ONE,
    ensures
        m == spec_rotation_x(s, c),
{
    Matrix4 {
        m00: FX_ONE, m01: 0, m02: 0, m03: 0,
        m10: 0, m11: c, m12: -s, m13: 0,
        m20: 0, m21: s, m22: c, m23: 0,
        m30: 0, m31: 0, m32: 0, m33: FX_ONE,
    }
}

/// Rotation about the y axis from a sine and cosine pair.
pub fn rotation_y(s: i64, c: i64) -> (m: Matrix4)
    requires
        -FX_ONE <= s <= FX_ONE,
        -FX_ONE <= c <= FX_ONE,
    ensures
        m == spec_rotation_y(s, c),
{
    Matrix4 {
        m00: c, m01: 0, m02: s, m03: 0,
        m10: 0, m11: FX_ONE, m12: 0, m13: 0,
        m20: -s, m21: 0, m22: c, m23: 0,
        m30: 0, m31: 0, m32: 0, m33: FX_ONE,
    }
}

/// Rotation about the z axis from a sine and cosine pair.
pub fn rotation_z(s: i64, c: i64) -> (m: Matrix4)
    requires
        -FX_ONE <= s <= FX_ONE,
        -FX_ONE <= c <= FX_ONE,
    ensures
        m == spec_rotation_z(s, c),
{
    Matrix4 {
        m00: c, m01: -s, m02: 0, m03: 0,
        m10: s, m11: c, m12: 0, m13: 0,
        m20: 0, m21: 0, m22: FX_ONE, m23: 0,
        m30: 0, m31: 0, m32: 0, m33: FX_ONE,
    }
}

/// Uniform scale by the fixed-point factor `k`.
pub fn scale_matrix(k: i64) -> (m: Matrix4)
    ensures
        m == spec_scale(k),
{
    Matrix4 {
        m00: k, m01: 0, m02: 0, m03: 0,
        m10: 0, m11: k, m12: 0, m13: 0,
        m20: 0, m21: 0, m22: k, m23: 0,
        m30: 0, m31: 0, m32: 0, m33: FX_ONE,
    }
}

/// Translation by `(tx, ty, tz)`.
pub fn translation_matrix(tx: i64, ty: i64, tz: i64) -> (m: Matrix4)
    ensures
        m == spec_translation(tx, ty, tz),
{
    Matrix4 {
        m00: FX_ONE, m01: 0, m02: 0, m03: tx,
        m10: 0, m11: FX_ONE, m12: 0, m13: ty,
        m20: 0, m21: 0, m22: FX_ONE, m23: tz,
        m30: 0, m31: 0, m32: 0, m33: FX_ONE,
    }
}

/// The determinant of the upper-left 3x3 linear block, in units of
/// `FX_ONE` cubed.
pub open spec fn linear_det_spec(m: Matrix4) -> int {
    let a = m.m00 as int;
    let b = m.m01 as int;
    let c = m.m02 as int;
    let d = m.m10 as int;
    let e = m.m11 as int;
    let f = m.m12 as int;
    let g = m.m20 as int;
    let h = m.m21 as int;
    let i = m.m22 as int;
    a * (e * i - f * h) - b * (d * i - f * g) + c * (d * h - e * g)
}

/// Composing two affine matrices yields an affine matrix, and the bottom
/// row survives composition exactly.
pub proof fn lemma_mul_affine(a: Matrix4, b: Matrix4)
    requires
        is_affine(a),
        is_affine(b),
    ensures
        is_affine(spec_mul(a, b)),
{
    assert((0int * (b.m00 as int) + 0int * (b.m10 as int) + 0int * (b.m20 as int) + 256 * 0) / 256 == 0);
    assert((0int * (b.m01 as int) + 0int * (b.m11 as int) + 0int * (b.m21 as int) + 256 * 0) / 256 == 0);
    assert((0int * (b.m02 as int) + 0int * (b.m12 as int) + 0int * (b.m22 as int) + 256 * 0) / 256 == 0);
    assert((0int * (b.m03 as int) + 0int * (b.m13 as int) + 0int * (b.m23 as int) + 256 * 256) / 256 == 256);
}

/// Bound on one fixed-point dot product from bounds on its two sides.
pub proof fn lemma_dot4_bound(
    a0: int, a1: int, a2: int, a3: int,
    b0: int, b1: int, b2: int, b3: int,
    ba: int, bb: int,
)
    requires
        0 <= ba,
        0 <= bb,
        -ba <= a0 <= ba,
        -ba <= a1 <= ba,
        -ba <= a2 <= ba,
        -ba <= a3 <= ba,
        -bb <= b0 <= bb,
        -bb <= b1 <= bb,
        -bb <= b2 <= bb,
        -bb <= b3 <= bb,
    ensures
        -((4 * ba * bb) / (FX_ONE as int)) - 1 <= dot4_spec(a0, a1, a2, a3, b0, b1, b2, b3)
            <= (4 * ba * bb) / (FX_ONE as int),
{
    lemma_mul_bound(a0, b0, ba, bb);
    lemma_mul_bound(a1, b1, ba, bb);
    lemma_mul_bound(a2, b2, ba, bb);
    lemma_mul_bound(a3, b3, ba, bb);
    assert(4 * ba * bb == ba * bb + ba * bb + ba * bb + ba * bb) by (nonlinear_arith);
    lemma_div_bound(a0 * b0 + a1 * b1 + a2 * b2 + a3 * b3, 4 * ba * bb, 256);
}

/// Every entry of a composition is bounded by `4 * ba * bb / FX_ONE + 1`
/// when the factors are bounded by `ba` and `bb`.
pub proof fn lemma_mul_bounded(a: Matrix4, b: Matrix4, ba: int, bb: int)
    requires
        mat_bounded(a, ba),
        mat_bounded(b, bb),
        0 <= ba,
        0 <= bb,
        4 * ba * bb <= 0x4000_0000_0000_0000 * 256,
    ensures
        mat_bounded(spec_mul(a, b), (4 * ba * bb) / (FX_ONE as int) + 1),
{
    lemma_dot4_bound(a.m00 as int, a.m01 as int, a.m02 as int, a.m03 as int, b.m00 as int, b.m10 as int, b.m20 as int, b.m30 as int, ba, bb);
    lemma_dot4_bound(a.m00 as int, a.m01 as int, a.m02 as int, a.m03 as int, b.m01 as int, b.m11 as int, b.m21 as int, b.m31 as int, ba, bb);
    lemma_dot4_bound(a.m00 as int, a.m01 as int, a.m02 as int, a.m03 as int, b.m02 as int, b.m12 as int, b.m22 as int, b.m32 as int, ba, bb);
    lemma_dot4_bound(a.m00 as int, a.m01 as int, a.m02 as int, a.m03 as int, b.m03 as int, b.m13 as int, b.m23 as int, b.m33 as int, ba, bb);
    lemma_dot4_bound(a.m10 as int, a.m11 as int, a.m12 as int, a.m13 as int, b.m00 as int, b.m10 as int, b.m20 as int, b.m30 as int, ba, bb);
    lemma_dot4_bound(a.m10 as int, a.m11 as int, a.m12 as int, a.m13 as int, b.m01 as int, b.m11 as int, b.m21 as int, b.m31 as int, ba, bb);
    lemma_dot4_bound(a.m10 as int, a.m11 as int, a.m12 as int, a.m13 as int, b.m02 as int, b.m12 as int, b.m22 as int, b.m32 as int, ba, bb);
    lemma_dot4_bound(a.m10 as int, a.m11 as int, a.m12 as int, a.m13 as int, b.m03 as int, b.m13 as int, b.m23 as int, b.m33 as int, ba, bb);
    lemma_dot4_bound(a.m20 as int, a.m21 as int, a.m22 as int, a.m23 as int, b.m00 as int, b.m10 as int, b.m20 as int, b.m30 as int, ba, bb);
    lemma_dot4_bound(a.m20 as int, a.m21 as int, a.m22 as int, a.m23 as int, b.m01 as int, b.m11 as int, b.m21 as int, b.m31 as int, ba, bb);
    lemma_dot4_bound(a.m20 as int, a.m21 as int, a.m22 as int, a.m23 as int, b.m02 as int, b.m12 as int, b.m22 as int, b.m32 as int, ba, bb);
    lemma_dot4_bound(a.m20 as int, a.m21 as int, a.m22 as int, a.m23 as int, b.m03 as int, b.m13 as int, b.m23 as int, b.m33 as int, ba, bb);
    lemma_dot4_bound(a.m30 as int, a.m31 as int, a.m32 as int, a.m33 as int, b.m00 as int, b.m10 as int, b.m20 as int, b.m30 as int, ba, bb);
    lemma_dot4_bound(a.m30 as int, a.m31 as int, a.m32 as int, a.m33 as int, b.m01 as int, b.m11 as int, b.m21 as int, b.m31 as int, ba, bb);
    lemma_dot4_bound(a.m30 as int, a.m31 as int, a.m32 as int, a.m33 as int, b.m02 as int, b.m12 as int, b.m22 as int, b.m32 as int, ba, bb);
    lemma_dot4_bound(a.m30 as int, a.m31 as int, a.m32 as int, a.m33 as int, b.m03 as int, b.m13 as int, b.m23 as int, b.m33 as int, ba, bb);
}

/// Law: rotation matrices are orthonormal. For any sine and cosine pair
/// lying exactly on the fixed-point unit circle, the 3x3 linear block of
/// each elementary rotation matrix has determinant one (that is,
/// `FX_ONE` cubed in fixed-point units), whatever the rotation angle the
/// pair came from.
pub proof fn lemma_rotation_orthonormal(s: i64, c: i64)
    requires
        -FX_ONE <= s <= FX_ONE,
        -FX_ONE <= c <= FX_ONE,
        (s as int) * (s as int) + (c as int) * (c as int) == (FX_ONE as int) * (FX_ONE as int),
    ensures
        linear_det_spec(spec_rotation_x(s, c)) == (FX_ONE as int) * (FX_ONE as int) * (FX_ONE as int),
        linear_det_spec(spec_rotation_y(s, c)) == (FX_ONE as int) * (FX_ONE as int) * (FX_ONE as int),
        linear_det_spec(spec_rotation_z(s, c)) == (FX_ONE as int) * (FX_ONE as int) * (FX_ONE as int),
{
    let si = s as int;
    let ci = c as int;
    assert(256 * (ci * ci - (-si) * si) - 0 * (0 * ci - (-si) * 0) + 0 * (0 * si - ci * 0) == 256
        * 256 * 256) by (nonlinear_arith)
        requires
            si * si + ci * ci == 256 * 256,
    ;
    assert(ci * (256 * ci - 0 * 0) - 0 * (0 * ci - 0 * (-si)) + si * (0 * 0 - 256 * (-si)) == 256
        * 256 * 256) by (nonlinear_arith)
        requires
            si * si + ci * ci == 256 * 256,
    ;
    assert(ci * (ci * 256 - 0 * 0) - (-si) * (si * 256 - 0 * 0) + 0 * (si * 0 - ci * 0) == 256
        * 256 * 256) by (nonlinear_arith)
        requires
            si * si + ci * ci == 256 * 256,
    ;
}

/// Composing a translation with a bounded affine matrix stays bounded:
/// every entry of the product is within `bb + bt + 1` when the right
/// factor's entries are within `bb` and the translation within `bt`. The
/// generic composition bound is far looser here, because a translation
/// row mixes only one entry of each column with the translation itself.
pub proof fn lemma_translation_mul_bounded(tx: i64, ty: i64, tz: i64, b: Matrix4, bt: int, bb: int)
    requires
        is_affine(b),
        mat_bounded(b, bb),
        -bt <= tx <= bt,
        -bt <= ty <= bt,
        -bt <= tz <= bt,
        256 <= bb,
        0 <= bt,
        bb + bt + 1 <= 0x7FFF_FFFF_FFFF_FFFF,
    ensures
        mat_bounded(spec_mul(spec_translation(tx, ty, tz), b), bb + bt + 1),
        is_affine(spec_mul(spec_translation(tx, ty, tz), b)),
{
    vstd::arithmetic::div_mod::lemma_div_multiples_vanish(bb + bt, 256);
    lemma_div_bound((FX_ONE as int) * (b.m00 as int) + 0 * (b.m10 as int) + 0 * (b.m20 as int) + (tx as int) * (b.m30 as int), 256 * (bb + bt), 256);
    lemma_div_bound((FX_ONE as int) * (b.m01 as int) + 0 * (b.m11 as int) + 0 * (b.m21 as int) + (tx as int) * (b.m31 as int), 256 * (bb + bt), 256);
    lemma_div_bound((FX_ONE as int) * (b.m02 as int) + 0 * (b.m12 as int) + 0 * (b.m22 as int) + (tx as int) * (b.m32 as int), 256 * (bb + bt), 256);
    lemma_div_bound((FX_ONE as int) * (b.m03 as int) + 0 * (b.m13 as int) + 0 * (b.m23 as int) + (tx as int) * (b.m33 as int), 256 * (bb + bt), 256);
    lemma_div_bound(0 * (b.m00 as int) + (FX_ONE as int) * (b.m10 as int) + 0 * (b.m20 as int) + (ty as int) * (b.m30 as int), 256 * (bb + bt), 256);
    lemma_div_bound(0 * (b.m01 as int) + (FX_ONE as int) * (b.m11 as int) + 0 * (b.m21 as int) + (ty as int) * (b.m31 as int), 256 * (bb + bt), 256);
    lemma_div_bound(0 * (b.m02 as int) + (FX_ONE as int) * (b.m12 as int) + 0 * (b.m22 as int) + (ty as int) * (b.m32 as int), 256 * (bb + bt), 256);
    lemma_div_bound(0 * (b.m03 as int) + (FX_ONE as int) * (b.m13 as int) + 0 * (b.m23 as int) + (ty as int) * (b.m33 as int), 256 * (bb + bt), 256);
    lemma_div_bound(0 * (b.m00 as int) + 0 * (b.m10 as int) + (FX_ONE as int) * (b.m20 as int) + (tz as int) * (b.m30 as int), 256 * (bb + bt), 256);
    lemma_div_bound(0 * (b.m01 as int) + 0 * (b.m11 as int) + (FX_ONE as int) * (b.m21 as int) + (tz as int) * (b.m31 as int), 256 * (bb + bt), 256);
    lemma_div_bound(0 * (b.m02 as int) + 0 * (b.m12 as int) + (FX_ONE as int) * (b.m22 as int) + (tz as int) * (b.m32 as int), 256 * (bb + bt), 256);
    lemma_div_bound(0 * (b.m03 as int) + 0 * (b.m13 as int) + (FX_ONE as int) * (b.m23 as int) + (tz as int) * (b.m33 as int), 256 * (bb + bt), 256);
}

} // verus!
