//! A CPU-side 3D rendering pipeline: model-matrix construction, vertex
//! transformation, triangle rasterization with interpolated depth, procedural
//! fragment shading, and a bounds-checked framebuffer.
//!
//! All scalar quantities are fixed-point numbers: an `i64` counting 1/256ths
//! of a unit (see [`fixed`]), which keeps every arithmetic step exact and
//! provable.

pub mod fixed;
pub mod matrix;
pub mod vertex;
pub mod fragment;
pub mod triangle;
pub mod shaders;
pub mod framebuffer;

use vstd::prelude::*;
use crate::fixed::FX_ONE;
use crate::fixed::fx_sin;
use crate::fixed::fx_cos;
use crate::fixed::fx_sin_spec;
use crate::fixed::fx_cos_spec;
use crate::matrix::Matrix4;
use crate::matrix::mat_bounded;
use crate::matrix::is_affine;
use crate::matrix::spec_mul;
use crate::matrix::spec_rotation_x;
use crate::matrix::spec_rotation_y;
use crate::matrix::spec_rotation_z;
use crate::matrix::spec_scale;
use crate::matrix::spec_translation;
use crate::matrix::rotation_x;
use crate::matrix::rotation_y;
use crate::matrix::rotation_z;
use crate::matrix::scale_matrix;
use crate::matrix::translation_matrix;
use crate::matrix::matrix_mul;
use crate::matrix::transform_point;
use crate::matrix::transform_x_spec;
use crate::matrix::transform_y_spec;
use crate::matrix::transform_z_spec;
use crate::matrix::lemma_mul_bounded;
use crate::matrix::lemma_mul_affine;
use crate::matrix::lemma_translation_mul_bounded;
use crate::matrix::lemma_dot4_bound;
use crate::vertex::Vertex;
use crate::vertex::LIM_MESH;
use crate::triangle::triangle;
use crate::triangle::LIM_RASTER;
use crate::triangle::covered_spec;
use crate::triangle::depth_spec;
use crate::triangle::has_frag;
use crate::fragment::Fragment;
use crate::shaders::Color;
use crate::shaders::spec_shade;
use crate::shaders::ShaderKind;
use crate::shaders::shade;
use crate::framebuffer::Framebuffer;

verus! {

/// Largest translation component `create_model_matrix` accepts.
pub const LIM_TRANSLATION: i64 = 0x10_0000;

/// Largest scale factor `create_model_matrix` accepts.
pub const LIM_SCALE: i64 = 0x10_0000;

/// Every entry of a model matrix is within this bound.
pub const LIM_MODEL: i64 = 0x800_0000;

/// Largest angle magnitude, in fixed-point radians, the sine and cosine
/// accept.
pub const LIM_ANGLE: i64 = 0x3FFF_FFFF_FFFF_0000;

/// Per-draw-call constant state: minimally, the model matrix the vertex
/// stage applies. Read-only during a draw.
pub struct Uniforms {
    pub model_matrix: Matrix4,
}

/// The model matrix for a body: scale applied first to local coordinates,
/// then the rotations about x, y and z, then the translation.
pub open spec fn spec_model_matrix(
    tx: i64, ty: i64, tz: i64, scale: i64, ax: i64, ay: i64, az: i64,
) -> Matrix4 {
    let rx = spec_rotation_x(fx_sin_spec(ax as int) as i64, fx_cos_spec(ax as int) as i64);
    let ry = spec_rotation_y(fx_sin_spec(ay as int) as i64, fx_cos_spec(ay as int) as i64);
    let rz = spec_rotation_z(fx_sin_spec(az as int) as i64, fx_cos_spec(az as int) as i64);
    spec_mul(
        spec_translation(tx, ty, tz),
        spec_mul(spec_mul(spec_mul(rx, ry), rz), spec_scale(scale)),
    )
}

/// Builds the model matrix from a translation, a uniform scale and Euler
/// rotation angles: exactly the composition of the elementary translation,
/// rotation and scale matrices, with the scale applied first and the
/// translation last.
pub fn create_model_matrix(translation: &Vertex, scale: i64, rotation: &Vertex) -> (m: Matrix4)
    requires
        -LIM_TRANSLATION <= translation.x <= LIM_TRANSLATION,
        -LIM_TRANSLATION <= translation.y <= LIM_TRANSLATION,
        -LIM_TRANSLATION <= translation.z <= LIM_TRANSLATION,
        0 <= scale <= LIM_SCALE,
        -LIM_ANGLE <= rotation.x <= LIM_ANGLE,
        -LIM_ANGLE <= rotation.y <= LIM_ANGLE,
        -LIM_ANGLE <= rotation.z <= LIM_ANGLE,
    ensures
        m == spec_model_matrix(
            translation.x, translation.y, translation.z, scale, rotation.x, rotation.y,
            rotation.z,
        ),
        mat_bounded(m, LIM_MODEL as int),
        is_affine(m),
{
    let sx = fx_sin(rotation.x);
    let cx = fx_cos(rotation.x);
    let sy = fx_sin(rotation.y);
    let cy = fx_cos(rotation.y);
    let sz = fx_sin(rotation.z);
    let cz = fx_cos(rotation.z);

    let rot_x = rotation_x(sx, cx);
    let rot_y = rotation_y(sy, cy);
    let rot_z = rotation_z(sz, cz);
    let sc = scale_matrix(scale);
    let tr = translation_matrix(translation.x, translation.y, translation.z);

    let rxy = matrix_mul(&rot_x, &rot_y);
    proof {
        lemma_mul_bounded(rot_x, rot_y, 256, 256);
        lemma_mul_affine(rot_x, rot_y);
    }
    let rot = matrix_mul(&rxy, &rot_z);
    proof {
        lemma_mul_bounded(rxy, rot_z, 1025, 256);
        lemma_mul_affine(rxy, rot_z);
    }
    let rs = matrix_mul(&rot, &sc);
    proof {
        lemma_mul_bounded(rot, sc, 4101, LIM_SCALE as int);
        lemma_mul_affine(rot, sc);
    }
    let m = matrix_mul(&tr, &rs);
    proof {
        lemma_translation_mul_bounded(
            translation.x, translation.y, translation.z, rs, LIM_TRANSLATION as int, 67190785,
        );
    }
    m
}

/// The vertex stage: applies the uniforms' model matrix to the vertex
/// position by homogeneous multiplication with an implicit w of one.
pub fn vertex_shader(v: &Vertex, uniforms: &Uniforms) -> (tv: Vertex)
    requires
        mat_bounded(uniforms.model_matrix, crate::matrix::LIM_MUL as int),
        -crate::matrix::LIM_MUL <= v.x <= crate::matrix::LIM_MUL,
        -crate::matrix::LIM_MUL <= v.y <= crate::matrix::LIM_MUL,
        -crate::matrix::LIM_MUL <= v.z <= crate::matrix::LIM_MUL,
    ensures
        tv.x == transform_x_spec(uniforms.model_matrix, v.x as int, v.y as int, v.z as int),
        tv.y == transform_y_spec(uniforms.model_matrix, v.x as int, v.y as int, v.z as int),
        tv.z == transform_z_spec(uniforms.model_matrix, v.x as int, v.y as int, v.z as int),
{
    let p = transform_point(&uniforms.model_matrix, v.x, v.y, v.z);
    Vertex { x: p.0, y: p.1, z: p.2 }
}

/// The vertex after the vertex stage: the model matrix applied to its
/// position.
pub open spec fn spec_transformed(m: Matrix4, v: Vertex) -> Vertex {
    Vertex {
        x: transform_x_spec(m, v.x as int, v.y as int, v.z as int) as i64,
        y: transform_y_spec(m, v.x as int, v.y as int, v.z as int) as i64,
        z: transform_z_spec(m, v.x as int, v.y as int, v.z as int) as i64,
    }
}

/// Complete triangle `t` of the draw call (vertices `3t`, `3t+1`, `3t+2`,
/// transformed by `m`) covers pixel `(px, py)`.
pub open spec fn tri_covers(m: Matrix4, va: Seq<Vertex>, t: int, px: int, py: int) -> bool {
    covered_spec(
        spec_transformed(m, va[3 * t]),
        spec_transformed(m, va[3 * t + 1]),
        spec_transformed(m, va[3 * t + 2]),
        px,
        py,
    )
}

/// One of the first `tcount` complete triangles covers pixel `(px, py)`.
pub open spec fn covered_upto(m: Matrix4, va: Seq<Vertex>, tcount: int, px: int, py: int) -> bool {
    exists|t: int| 0 <= t < tcount && #[trigger] tri_covers(m, va, t, px, py)
}

/// The color the selected shader produces for triangle `t`'s fragment at
/// pixel `(px, py)`: the shader applied to the pixel position and the
/// barycentric depth there.
pub open spec fn draw_color(
    kind: ShaderKind, m: Matrix4, va: Seq<Vertex>, t: int, px: int, py: int,
) -> Color {
    spec_shade(
        kind,
        256 * px,
        256 * py,
        depth_spec(
            spec_transformed(m, va[3 * t]),
            spec_transformed(m, va[3 * t + 1]),
            spec_transformed(m, va[3 * t + 2]),
            px,
            py,
        ),
    )
}

/// What a draw call leaves at one pixel, after its first `tcount`
/// triangles: a pixel covered by none of them keeps its old color; a
/// covered pixel holds the shader's color for one of the triangles
/// covering it.
pub open spec fn pixel_settled(
    kind: ShaderKind, m: Matrix4, va: Seq<Vertex>, tcount: int, old_data: Seq<Color>,
    data: Seq<Color>, w: int, px: int, py: int,
) -> bool {
    if covered_upto(m, va, tcount, px, py) {
        exists|t: int| 0 <= t < tcount && #[trigger] tri_covers(m, va, t, px, py) && data[py * w
            + px] == draw_color(kind, m, va, t, px, py)
    } else {
        data[py * w + px] == old_data[py * w + px]
    }
}

/// A fragment among the first `n` of `frags` sits at pixel `(px, py)`.
pub open spec fn in_prefix(frags: Seq<Fragment>, n: int, px: int, py: int) -> bool {
    exists|i: int| 0 <= i < n && i < frags.len() && frags[i].x == px && frags[i].y == py
}

/// A pixel on the grid has a row-major index on the grid.
proof fn lemma_pixel_index_in_range(w: int, h: int, px: int, py: int)
    requires
        0 <= px < w,
        0 <= py < h,
    ensures
        0 <= py * w + px < w * h,
{
    assert(0 <= py * w + px < w * h) by (nonlinear_arith)
        requires
            0 <= px < w,
            0 <= py < h,
    ;
}

/// Distinct pixels of one row-major grid have distinct indices.
proof fn lemma_pixel_index_distinct(w: int, x1: int, y1: int, x2: int, y2: int)
    requires
        0 <= x1 < w,
        0 <= x2 < w,
        !(x1 == x2 && y1 == y2),
    ensures
        y1 * w + x1 != y2 * w + x2,
{
    assert(y1 * w + x1 != y2 * w + x2) by (nonlinear_arith)
        requires
            0 <= x1 < w,
            0 <= x2 < w,
            !(x1 == x2 && y1 == y2),
    ;
}

/// Renders a vertex array with one shader: transforms every vertex by the
/// uniforms' model matrix, groups the transformed vertices into runs of
/// three, rasterizes each complete triangle, shades every fragment, and
/// writes the colors into the framebuffer through its bounds-checked
/// `point`. A trailing group of fewer than three vertices is ignored, and
/// a degenerate triangle covers nothing. Every pixel covered by no
/// complete triangle keeps its color; every covered in-bounds pixel ends
/// up holding the shader's color for a triangle covering it.
pub fn render_with_shader(
    framebuffer: &mut Framebuffer,
    uniforms: &Uniforms,
    vertex_array: &Vec<Vertex>,
    shader: ShaderKind,
)
    requires
        old(framebuffer).wf(),
        mat_bounded(uniforms.model_matrix, LIM_MODEL as int),
        forall|k: int| 0 <= k < vertex_array@.len() ==> -LIM_MESH <= #[trigger] vertex_array@[k].x
            <= LIM_MESH && -LIM_MESH <= vertex_array@[k].y <= LIM_MESH && -LIM_MESH
            <= vertex_array@[k].z <= LIM_MESH,
    ensures
        final(framebuffer).wf(),
        final(framebuffer).width == old(framebuffer).width,
        final(framebuffer).height == old(framebuffer).height,
        final(framebuffer).background == old(framebuffer).background,
        forall|px: int, py: int| #[trigger] old(framebuffer).in_bounds(px, py) ==> pixel_settled(
            shader, uniforms.model_matrix, vertex_array@, vertex_array@.len() as int / 3,
            old(framebuffer).data@, final(framebuffer).data@, old(framebuffer).width as int, px,
            py,
        ),
{
    let mut tv: Vec<Vertex> = Vec::new();
    let mut i: usize = 0;
    while i < vertex_array.len()
        invariant
            i <= vertex_array@.len(),
            tv@.len() == i,
            mat_bounded(uniforms.model_matrix, LIM_MODEL as int),
            forall|k: int| 0 <= k < vertex_array@.len() ==> -LIM_MESH
                <= #[trigger] vertex_array@[k].x <= LIM_MESH && -LIM_MESH <= vertex_array@[k].y
                <= LIM_MESH && -LIM_MESH <= vertex_array@[k].z <= LIM_MESH,
            forall|k: int| 0 <= k < tv@.len() ==> -LIM_RASTER <= #[trigger] tv@[k].x <= LIM_RASTER
                && -LIM_RASTER <= tv@[k].y <= LIM_RASTER && -LIM_RASTER <= tv@[k].z <= LIM_RASTER,
            forall|k: int| 0 <= k < tv@.len() ==> #[trigger] tv@[k] == spec_transformed(
                uniforms.model_matrix, vertex_array@[k],
            ),
        decreases vertex_array@.len() - i,
    {
        let v = vertex_array[i];
        proof {
            assert(v == vertex_array@[i as int]);
            assert(-LIM_MESH <= vertex_array@[i as int].x <= LIM_MESH && -LIM_MESH
                <= vertex_array@[i as int].y <= LIM_MESH && -LIM_MESH <= vertex_array@[i as int].z
                <= LIM_MESH);
            lemma_dot4_bound(
                uniforms.model_matrix.m00 as int, uniforms.model_matrix.m01 as int,
                uniforms.model_matrix.m02 as int, uniforms.model_matrix.m03 as int, v.x as int,
                v.y as int, v.z as int, FX_ONE as int, LIM_MODEL as int, LIM_MESH as int,
            );
            lemma_dot4_bound(
                uniforms.model_matrix.m10 as int, uniforms.model_matrix.m11 as int,
                uniforms.model_matrix.m12 as int, uniforms.model_matrix.m13 as int, v.x as int,
                v.y as int, v.z as int, FX_ONE as int, LIM_MODEL as int, LIM_MESH as int,
            );
            lemma_dot4_bound(
                uniforms.model_matrix.m20 as int, uniforms.model_matrix.m21 as int,
                uniforms.model_matrix.m22 as int, uniforms.model_matrix.m23 as int, v.x as int,
                v.y as int, v.z as int, FX_ONE as int, LIM_MODEL as int, LIM_MESH as int,
            );
        }
        let p = transform_point(&uniforms.model_matrix, v.x, v.y, v.z);
        let t = Vertex { x: p.0, y: p.1, z: p.2 };
        proof {
            assert(t == spec_transformed(uniforms.model_matrix, vertex_array@[i as int]));
        }
        tv.push(t);
        i = i + 1;
    }
    let mut idx: usize = 0;
    while tv.len() - idx >= 3
        invariant
            idx <= tv@.len(),
            idx % 3 == 0,
            tv@.len() == vertex_array@.len(),
            framebuffer.wf(),
            framebuffer.width == old(framebuffer).width,
            framebuffer.height == old(framebuffer).height,
            framebuffer.background == old(framebuffer).background,
            framebuffer.data@.len() == old(framebuffer).data@.len(),
            forall|k: int| 0 <= k < tv@.len() ==> -LIM_RASTER <= #[trigger] tv@[k].x <= LIM_RASTER
                && -LIM_RASTER <= tv@[k].y <= LIM_RASTER && -LIM_RASTER <= tv@[k].z <= LIM_RASTER,
            forall|k: int| 0 <= k < tv@.len() ==> #[trigger] tv@[k] == spec_transformed(
                uniforms.model_matrix, vertex_array@[k],
            ),
            forall|px: int, py: int| #[trigger] old(framebuffer).in_bounds(px, py)
                ==> pixel_settled(
                shader, uniforms.model_matrix, vertex_array@, idx as int / 3,
                old(framebuffer).data@, framebuffer.data@, old(framebuffer).width as int, px, py,
            ),
        decreases tv@.len() - idx,
    {
        let ghost m = uniforms.model_matrix;
        let ghost va = vertex_array@;
        let ghost tcur = idx as int / 3;
        proof {
            assert(3 * tcur == idx as int);
            assert(tv@[idx as int] == spec_transformed(m, va[3 * tcur]));
            assert(tv@[idx as int + 1] == spec_transformed(m, va[3 * tcur + 1]));
            assert(tv@[idx as int + 2] == spec_transformed(m, va[3 * tcur + 2]));
        }
        let frags = triangle(&tv[idx], &tv[idx + 1], &tv[idx + 2]);
        let ghost tv0 = tv@[idx as int];
        let ghost tv1 = tv@[idx as int + 1];
        let ghost tv2 = tv@[idx as int + 2];
        let mut j: usize = 0;
        while j < frags.len()
            invariant
                j <= frags@.len(),
                framebuffer.wf(),
                framebuffer.width == old(framebuffer).width,
                framebuffer.height == old(framebuffer).height,
                framebuffer.background == old(framebuffer).background,
                framebuffer.data@.len() == old(framebuffer).data@.len(),
                tv0 == spec_transformed(m, va[3 * tcur]),
                tv1 == spec_transformed(m, va[3 * tcur + 1]),
                tv2 == spec_transformed(m, va[3 * tcur + 2]),
                0 <= 3 * tcur,
                3 * tcur + 2 < va.len(),
                m == uniforms.model_matrix,
                va == vertex_array@,
                forall|k: int| 0 <= k < frags@.len() ==> covered_spec(
                    tv0, tv1, tv2, #[trigger] frags@[k].x as int, frags@[k].y as int,
                ),
                forall|k: int| 0 <= k < frags@.len() ==> #[trigger] frags@[k].depth as int
                    == depth_spec(tv0, tv1, tv2, frags@[k].x as int, frags@[k].y as int),
                forall|k: int| 0 <= k < frags@.len() ==> -0x2_0000_0000 <= #[trigger] frags@[k].x
                    <= 0x2_0000_0000 && -0x2_0000_0000 <= frags@[k].y <= 0x2_0000_0000,
                forall|qx: int, qy: int| #[trigger] covered_spec(tv0, tv1, tv2, qx, qy)
                    ==> has_frag(frags@, qx, qy),
                forall|px: int, py: int| #[trigger] old(framebuffer).in_bounds(px, py)
                    && in_prefix(frags@, j as int, px, py) ==> framebuffer.data@[py * (old(
                    framebuffer,
                ).width as int) + px] == draw_color(shader, m, va, tcur, px, py),
                forall|px: int, py: int| #[trigger] old(framebuffer).in_bounds(px, py)
                    && !in_prefix(frags@, j as int, px, py) ==> pixel_settled(
                    shader, m, va, tcur, old(framebuffer).data@, framebuffer.data@,
                    old(framebuffer).width as int, px, py,
                ),
            decreases frags@.len() - j,
        {
            let f = frags[j];
            let color = shade(shader, &Vertex { x: f.x * FX_ONE, y: f.y * FX_ONE, z: f.depth });
            proof {
                assert(covered_spec(tv0, tv1, tv2, f.x as int, f.y as int));
                assert(color == draw_color(shader, m, va, tcur, f.x as int, f.y as int));
            }
            let ghost before = framebuffer.data@;
            framebuffer.point(f.x, f.y, color);
            proof {
                let w = old(framebuffer).width as int;
                let hh = old(framebuffer).height as int;
                assert(before.len() == w * hh);
                if old(framebuffer).in_bounds(f.x as int, f.y as int) {
                    lemma_pixel_index_in_range(w, hh, f.x as int, f.y as int);
                    assert(framebuffer.data@ == before.update(
                        (f.y as int) * w + (f.x as int), color,
                    ));
                } else {
                    assert(framebuffer.data@ == before);
                }
                let h = old(framebuffer).height as int;
                assert forall|px: int, py: int| #[trigger] old(framebuffer).in_bounds(px, py)
                    && in_prefix(frags@, j as int + 1, px, py) implies framebuffer.data@[py * w
                    + px] == draw_color(shader, m, va, tcur, px, py) by {
                    lemma_pixel_index_in_range(w, h, px, py);
                    if px == f.x as int && py == f.y as int {
                        assert(framebuffer.data@ == before.update(py * w + px, color));
                        assert(framebuffer.data@[py * w + px] == color);
                    } else {
                        let fi = choose|fi: int| 0 <= fi < j as int + 1 && fi < frags@.len()
                            && frags@[fi].x == px && frags@[fi].y == py;
                        assert(fi < j as int);
                        assert(in_prefix(frags@, j as int, px, py));
                        if old(framebuffer).in_bounds(f.x as int, f.y as int) {
                            lemma_pixel_index_distinct(w, px, py, f.x as int, f.y as int);
                        }
                        assert(framebuffer.data@[py * w + px] == before[py * w + px]);
                    }
                }
                assert forall|px: int, py: int| #[trigger] old(framebuffer).in_bounds(px, py)
                    && !in_prefix(frags@, j as int + 1, px, py) implies pixel_settled(
                    shader, m, va, tcur, old(framebuffer).data@, framebuffer.data@, w, px, py,
                ) by {
                    lemma_pixel_index_in_range(w, old(framebuffer).height as int, px, py);
                    assert(!(px == f.x as int && py == f.y as int));
                    assert(!in_prefix(frags@, j as int, px, py));
                    if old(framebuffer).in_bounds(f.x as int, f.y as int) {
                        lemma_pixel_index_distinct(w, px, py, f.x as int, f.y as int);
                    }
                    assert(framebuffer.data@[py * w + px] == before[py * w + px]);
                }
            }
            j = j + 1;
        }
        proof {
            let w = old(framebuffer).width as int;
            assert forall|px: int, py: int| #[trigger] old(framebuffer).in_bounds(px, py)
                implies pixel_settled(
                shader, m, va, tcur + 1, old(framebuffer).data@, framebuffer.data@, w, px, py,
            ) by {
                lemma_pixel_index_in_range(w, old(framebuffer).height as int, px, py);
                if tri_covers(m, va, tcur, px, py) {
                    assert(covered_spec(tv0, tv1, tv2, px, py));
                    assert(has_frag(frags@, px, py));
                    assert(in_prefix(frags@, frags@.len() as int, px, py));
                    assert(framebuffer.data@[py * w + px] == draw_color(
                        shader, m, va, tcur, px, py,
                    ));
                    assert(covered_upto(m, va, tcur + 1, px, py));
                } else {
                    if in_prefix(frags@, frags@.len() as int, px, py) {
                        let fi = choose|fi: int| 0 <= fi < frags@.len() && frags@[fi].x == px
                            && frags@[fi].y == py;
                        assert(covered_spec(tv0, tv1, tv2, frags@[fi].x as int,
                            frags@[fi].y as int));
                        assert(false);
                    }
                    assert(pixel_settled(
                        shader, m, va, tcur, old(framebuffer).data@, framebuffer.data@, w, px, py,
                    ));
                    if covered_upto(m, va, tcur + 1, px, py) {
                        let t = choose|t: int| 0 <= t < tcur + 1 && #[trigger] tri_covers(
                            m, va, t, px, py,
                        );
                        assert(t < tcur);
                        assert(covered_upto(m, va, tcur, px, py));
                    } else {
                        assert(!covered_upto(m, va, tcur, px, py));
                    }
                }
            }
        }
        idx = idx + 3;
    }
    proof {
        assert(vertex_array@.len() as int / 3 == idx as int / 3);
    }
}

} // verus!
