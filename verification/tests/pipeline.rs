use softraster::create_model_matrix;
use softraster::render_with_shader;
use softraster::vertex_shader;
use softraster::Uniforms;
use softraster::fixed::{floor_div_i64, floor_mod_i64, fx_cos, fx_mul, fx_sin, FX_HALF_PI, FX_ONE};
use softraster::framebuffer::Framebuffer;
use softraster::matrix::{identity, matrix_mul, new_matrix4};
use softraster::shaders::{gas_shader, rocky_shader, shade, star_shader, Color, ShaderKind};
use softraster::triangle::triangle;
use softraster::vertex::Vertex;

fn v(x: i64, y: i64, z: i64) -> Vertex {
    Vertex { x, y, z }
}

const BLACK: Color = Color { r: 0, g: 0, b: 0 };

#[test]
fn floor_division_rounds_down() {
    assert_eq!(floor_div_i64(7, 2), 3);
    assert_eq!(floor_div_i64(-7, 2), -4);
    assert_eq!(floor_div_i64(-8, 2), -4);
    assert_eq!(floor_mod_i64(-7, 2), 1);
    assert_eq!(floor_mod_i64(7, 2), 1);
    assert_eq!(floor_mod_i64(-1, 1608), 1607);
}

#[test]
fn fixed_point_products() {
    // 2.0 * 1.5 == 3.0 in 1/256ths
    assert_eq!(fx_mul(512, 384), 768);
    assert_eq!(fx_mul(-512, 384), -768);
    assert_eq!(fx_mul(0, 12345), 0);
}

#[test]
fn sine_cosine_exact_at_quarter_turns() {
    assert_eq!(fx_sin(0), 0);
    assert_eq!(fx_cos(0), FX_ONE);
    assert_eq!(fx_sin(FX_HALF_PI), FX_ONE);
    assert_eq!(fx_sin(2 * FX_HALF_PI), 0);
    assert_eq!(fx_sin(3 * FX_HALF_PI), -FX_ONE);
    assert_eq!(fx_cos(2 * FX_HALF_PI), -FX_ONE);
}

#[test]
fn sine_cosine_stay_in_unit_range() {
    let mut a: i64 = -2000;
    while a <= 2000 {
        let s = fx_sin(a);
        let c = fx_cos(a);
        assert!(-FX_ONE <= s && s <= FX_ONE);
        assert!(-FX_ONE <= c && c <= FX_ONE);
        a += 37;
    }
}

#[test]
fn matrix_packing_and_identity() {
    let m = new_matrix4(
        FX_ONE, 0, 0, 0, 0, FX_ONE, 0, 0, 0, 0, FX_ONE, 0, 0, 0, 0, FX_ONE,
    );
    assert_eq!(m, identity());
    let p = matrix_mul(&m, &m);
    assert_eq!(p, identity());
}

#[test]
fn model_matrix_without_rotation_is_scale_then_translate() {
    // translation (10, 20, 30), scale 2.0, rotation zero
    let t = v(10 * FX_ONE, 20 * FX_ONE, 30 * FX_ONE);
    let m = create_model_matrix(&t, 2 * FX_ONE, &v(0, 0, 0));
    let u = Uniforms { model_matrix: m };
    // the origin lands exactly on the translation
    let o = vertex_shader(&v(0, 0, 0), &u);
    assert_eq!((o.x, o.y, o.z), (10 * FX_ONE, 20 * FX_ONE, 30 * FX_ONE));
    // any point lands on scale * p + translation
    let p = vertex_shader(&v(FX_ONE, 2 * FX_ONE, -FX_ONE), &u);
    assert_eq!((p.x, p.y, p.z), (12 * FX_ONE, 24 * FX_ONE, 28 * FX_ONE));
}

#[test]
fn rasterizer_covers_the_expected_lattice() {
    // vertices (0,0,0), (4,0,0), (0,4,0) in pixels
    let frags = triangle(&v(0, 0, 0), &v(4 * FX_ONE, 0, 0), &v(0, 4 * FX_ONE, 0));
    // the covered lattice is x >= 0, y >= 0, x + y <= 4: fifteen pixels
    assert_eq!(frags.len(), 15);
    for f in frags.iter() {
        assert!(f.x >= 0 && f.y >= 0 && f.x + f.y <= 4);
        assert_eq!(f.depth, 0);
    }
    assert!(frags.iter().any(|f| f.x == 0 && f.y == 0));
    assert!(frags.iter().any(|f| f.x == 4 && f.y == 0));
    assert!(frags.iter().any(|f| f.x == 0 && f.y == 4));
    assert!(!frags.iter().any(|f| f.x == 3 && f.y == 2));
}

#[test]
fn degenerate_triangle_yields_no_fragments() {
    let frags = triangle(&v(0, 0, 0), &v(4 * FX_ONE, 0, 0), &v(8 * FX_ONE, 0, 0));
    assert_eq!(frags.len(), 0);
}

#[test]
fn depth_at_centroid_is_the_mean_of_vertex_depths() {
    // centroid of (0,0), (6,0), (0,6) is the lattice pixel (2,2)
    let frags = triangle(&v(0, 0, 0), &v(6 * FX_ONE, 0, 300), &v(0, 6 * FX_ONE, 600));
    let center = frags.iter().find(|f| f.x == 2 && f.y == 2).unwrap();
    assert_eq!(center.depth, (0 + 300 + 600) / 3);
}

#[test]
fn shaders_are_deterministic() {
    let p = v(7 * FX_ONE, 11 * FX_ONE, 300);
    assert_eq!(star_shader(&p), star_shader(&p));
    assert_eq!(rocky_shader(&p), rocky_shader(&p));
    assert_eq!(gas_shader(&p), gas_shader(&p));
    assert_eq!(shade(ShaderKind::Star, &p), star_shader(&p));
    assert_eq!(shade(ShaderKind::Rocky, &p), rocky_shader(&p));
    assert_eq!(shade(ShaderKind::Gas, &p), gas_shader(&p));
}

#[test]
fn star_shader_is_never_black() {
    assert_eq!(star_shader(&v(0, 0, 0)).r, 255);
    assert_eq!(star_shader(&v(-5 * FX_ONE, 9 * FX_ONE, i64::MAX)).r, 255);
}

#[test]
fn gas_shader_bands_along_y() {
    let a = gas_shader(&v(0, 0, 0));
    let b = gas_shader(&v(0, 8 * FX_ONE, 0));
    assert_ne!(a, b);
    // one full period later the band repeats
    let c = gas_shader(&v(0, 16 * FX_ONE, 0));
    assert_eq!(a, c);
}

#[test]
fn framebuffer_ignores_out_of_bounds_writes() {
    let mut fb = Framebuffer::new(4, 3);
    let red = Color { r: 255, g: 0, b: 0 };
    fb.point(-1, 0, red);
    fb.point(4, 0, red);
    fb.point(0, 3, red);
    fb.point(0, -1, red);
    for y in 0..3 {
        for x in 0..4 {
            assert_eq!(fb.get_pixel(x, y), BLACK);
        }
    }
    fb.point(0, 0, red);
    assert_eq!(fb.get_pixel(0, 0), red);
    assert_eq!(fb.get_pixel(1, 0), BLACK);
}

#[test]
fn clear_paints_the_background_color() {
    let mut fb = Framebuffer::new(3, 2);
    let blue = Color { r: 0, g: 0, b: 200 };
    fb.set_background_color(blue);
    fb.point(1, 1, Color { r: 9, g: 9, b: 9 });
    fb.clear();
    for y in 0..2 {
        for x in 0..3 {
            assert_eq!(fb.get_pixel(x, y), blue);
        }
    }
}

#[test]
fn rendering_one_star_triangle_lights_exactly_the_covered_pixels() {
    let mut fb = Framebuffer::new(10, 10);
    fb.clear();
    // identity model matrix: translation zero, scale one, rotation zero
    let m = create_model_matrix(&v(0, 0, 0), FX_ONE, &v(0, 0, 0));
    let u = Uniforms { model_matrix: m };
    let mesh = vec![v(0, 0, 0), v(4 * FX_ONE, 0, 0), v(0, 4 * FX_ONE, 0)];
    render_with_shader(&mut fb, &u, &mesh, ShaderKind::Star);
    for y in 0..10i64 {
        for x in 0..10i64 {
            let covered = x >= 0 && y >= 0 && x + y <= 4;
            let c = fb.get_pixel(x, y);
            if covered {
                assert_ne!(c, BLACK);
                assert_eq!(c.r, 255);
            } else {
                assert_eq!(c, BLACK);
            }
        }
    }
}

#[test]
fn rendering_leaves_dimensions_and_background_alone() {
    let mut fb = Framebuffer::new(8, 5);
    let m = create_model_matrix(&v(2 * FX_ONE, FX_ONE, 0), FX_ONE, &v(0, FX_HALF_PI, 0));
    let u = Uniforms { model_matrix: m };
    let mesh = vec![v(0, 0, 0), v(2 * FX_ONE, 0, 0), v(0, 2 * FX_ONE, 0)];
    render_with_shader(&mut fb, &u, &mesh, ShaderKind::Rocky);
    assert_eq!(fb.width(), 8);
    assert_eq!(fb.height(), 5);
}
