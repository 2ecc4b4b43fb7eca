//! The procedural fragment shaders. A shader is a pure function from a
//! fragment's spatial vector `(pixel x, pixel y, depth)` to a color; each
//! is total, clamping extreme inputs internally, and fully determined by
//! its input, which its contract states exactly.

use vstd::prelude::*;
use crate::vertex::Vertex;
use crate::fixed::floor_mod_i64;

verus! {

/// Inputs beyond this magnitude are clamped before a shader reads them.
pub const LIM_SHADE: i64 = 0x100_0000_0000;

/// An 8-bit RGB color.
#[derive(Clone, Copy, PartialEq, Eq, Structural, Debug)]
pub struct Color {
    pub r: u8,
    pub g: u8,
    pub b: u8,
}

/// The closed set of shader variants, selected per draw call.
#[derive(Clone, Copy, PartialEq, Eq, Structural, Debug)]
pub enum ShaderKind {
    Star,
    Rocky,
    Gas,
}

/// `v` pulled into `[-lim, lim]`.
pub open spec fn spec_clamp(v: int, lim: int) -> int {
    if v > lim {
        lim
    } else if v < -lim {
        -lim
    } else {
        v
    }
}

/// The star shader's color at `(x, y, z)`: a bright emissive warm white,
/// with a slight limb falloff driven by depth. The red channel is always
/// full, so the color is never black.
pub open spec fn spec_star(x: int, y: int, z: int) -> Color {
    let d = spec_clamp(z, LIM_SHADE as int) % 64;
    Color { r: 255, g: 220, b: (150 + d) as u8 }
}

/// The rocky shader's color at `(x, y, z)`: a mottled brown mixed from
/// three position hashes.
pub open spec fn spec_rocky(x: int, y: int, z: int) -> Color {
    let cx = spec_clamp(x, LIM_SHADE as int);
    let cy = spec_clamp(y, LIM_SHADE as int);
    let cz = spec_clamp(z, LIM_SHADE as int);
    let h = (cx * 31 + cy * 17 + cz * 13) % 96;
    let h2 = (cx * 7 + cy * 29) % 48;
    let h3 = (cx + cy + cz) % 32;
    Color { r: (110 + h) as u8, g: (80 + h2) as u8, b: (60 + h3) as u8 }
}

/// The gas shader's color at `(x, y, z)`: two tones banded along the y
/// axis, eight pixels per band.
pub open spec fn spec_gas(x: int, y: int, z: int) -> Color {
    let band = spec_clamp(y, LIM_SHADE as int) % 4096;
    if band < 2048 {
        Color { r: 190, g: 170, b: 130 }
    } else {
        Color { r: 150, g: 120, b: 90 }
    }
}

/// The color the given shader produces at `(x, y, z)`.
pub open spec fn spec_shade(kind: ShaderKind, x: int, y: int, z: int) -> Color {
    match kind {
        ShaderKind::Star => spec_star(x, y, z),
        ShaderKind::Rocky => spec_rocky(x, y, z),
        ShaderKind::Gas => spec_gas(x, y, z),
    }
}

fn clamp_i64(v: i64, lim: i64) -> (r: i64)
    requires
        0 < lim,
    ensures
        r == spec_clamp(v as int, lim as int),
        -lim <= r <= lim,
{
    if v > lim {
        lim
    } else if v < -lim {
        -lim
    } else {
        v
    }
}

/// The star shader: bright, warm, never black, deterministic in its input.
pub fn star_shader(v: &Vertex) -> (c: Color)
    ensures
        c == spec_star(v.x as int, v.y as int, v.z as int),
        c.r == 255,
{
    let cz = clamp_i64(v.z, LIM_SHADE);
    let d = floor_mod_i64(cz, 64);
    Color { r: 255, g: 220, b: (150 + d) as u8 }
}

/// The rocky shader: a mottled surface, deterministic in its input.
pub fn rocky_shader(v: &Vertex) -> (c: Color)
    ensures
        c == spec_rocky(v.x as int, v.y as int, v.z as int),
{
    let cx = clamp_i64(v.x, LIM_SHADE);
    let cy = clamp_i64(v.y, LIM_SHADE);
    let cz = clamp_i64(v.z, LIM_SHADE);
    let h = floor_mod_i64(cx * 31 + cy * 17 + cz * 13, 96);
    let h2 = floor_mod_i64(cx * 7 + cy * 29, 48);
    let h3 = floor_mod_i64(cx + cy + cz, 32);
    Color { r: (110 + h) as u8, g: (80 + h2) as u8, b: (60 + h3) as u8 }
}

/// The gas shader: banded color along the y axis, deterministic in its
/// input.
pub fn gas_shader(v: &Vertex) -> (c: Color)
    ensures
        c == spec_gas(v.x as int, v.y as int, v.z as int),
{
    let cy = clamp_i64(v.y, LIM_SHADE);
    let band = floor_mod_i64(cy, 4096);
    if band < 2048 {
        Color { r: 190, g: 170, b: 130 }
    } else {
        Color { r: 150, g: 120, b: 90 }
    }
}

/// Runs the selected shader on a fragment's spatial vector. The result is
/// exactly `spec_shade` of the input, so two calls on equal inputs always
/// return equal colors.
pub fn shade(kind: ShaderKind, v: &Vertex) -> (c: Color)
    ensures
        c == spec_shade(kind, v.x as int, v.y as int, v.z as int),
{
    match kind {
        ShaderKind::Star => star_shader(v),
        ShaderKind::Rocky => rocky_shader(v),
        ShaderKind::Gas => gas_shader(v),
    }
}

} // verus!
