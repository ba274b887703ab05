use vstd::prelude::*;

use crate::fixed::ONE;
use crate::ray::Side;

verus! {

/// Largest screen width or height, in pixels.
pub const MAX_SCREEN: usize = 4096;

/// Walls nearer than `ONE / NEAR_DIV` are not drawn.
pub const NEAR_DIV: u64 = 20;

/// Walls at `FAR_CELLS` cells or beyond are not drawn.
pub const FAR_CELLS: u64 = 12;

/// Brightness levels per colour channel before scaling to a byte.
pub const LEVELS: u8 = 255;

/// Colour tints are given in thousandths.
pub const TINT_ONE: u64 = 1000;

/// An opaque colour, one byte per channel.
#[derive(Clone, Copy, Debug, PartialEq, Eq, Structural)]
pub struct Rgb {
    pub r: u8,
    pub g: u8,
    pub b: u8,
}

/// A colour tint, each channel in thousandths of full brightness.
#[derive(Clone, Copy, Debug, PartialEq, Eq, Structural)]
pub struct Tint {
    pub r: u64,
    pub g: u64,
    pub b: u64,
}

/// Tint of walls hit on a vertical face.
pub open spec fn x_face_tint() -> Tint {
    Tint { r: 900, g: 300, b: 800 }
}

/// Tint of walls hit on a horizontal face.
pub open spec fn y_face_tint() -> Tint {
    Tint { r: 300, g: 800, b: 900 }
}

/// Tint of the floor and ceiling.
pub open spec fn floor_tint() -> Tint {
    Tint { r: 700, g: 200, b: 100 }
}

pub open spec fn side_tint(side: Side) -> Tint {
    match side {
        Side::X => x_face_tint(),
        Side::Y => y_face_tint(),
    }
}

/// Projected height in pixels of a unit-high wall at fixed-point distance
/// `dist` on a screen `h` pixels high: `h / distance`, rounded down and
/// never more than `h`.
pub open spec fn wall_height(dist: int, h: int) -> int {
    if dist == 0 {
        h
    } else if h * ONE / dist < h {
        h * ONE / dist
    } else {
        h
    }
}

/// First row of the wall band.
pub open spec fn band_start(dist: int, h: int) -> int {
    (h - wall_height(dist, h)) / 2
}

/// Row just past the wall band.
pub open spec fn band_end(dist: int, h: int) -> int {
    h - band_start(dist, h)
}

/// Between the near and the far plane, both excluded.
pub open spec fn in_depth(dist: int) -> bool {
    NEAR_DIV * dist > ONE && dist < FAR_CELLS * ONE
}

/// Row `j` shows wall rather than floor or ceiling.
pub open spec fn is_wall_row(dist: int, h: int, j: int) -> bool {
    band_start(dist, h) <= j < band_end(dist, h) && in_depth(dist)
}

/// Fog factor `1 / (distance^2 + 1)`, as a fraction: the numerator...
pub open spec fn fog_num(dist: int) -> int {
    ONE * ONE
}

/// ... and the denominator.
pub open spec fn fog_den(dist: int) -> int {
    dist * dist + ONE * ONE
}

/// A channel value `num / den` in `[0, 1]`, cut down to `levels` steps and
/// scaled to a byte.
pub open spec fn quantized(num: int, den: int, levels: int) -> int {
    (levels * num / den) * 255 / levels
}

/// Wall channel: vignette weight `v / ONE` times fog times tint.
pub open spec fn wall_channel(dist: int, v: int, tint: int) -> int {
    quantized(
        v * fog_num(dist) * tint,
        ONE * fog_den(dist) * TINT_ONE,
        LEVELS as int,
    )
}

/// Floor channel: vignette weight times the square of the distance from the
/// horizon, as a share of the half-height, times tint.
pub open spec fn floor_channel(h: int, j: int, v: int, tint: int) -> int {
    quantized(
        v * ((h - 2 * j) * (h - 2 * j)) * tint,
        ONE * (h * h) * TINT_ONE,
        LEVELS as int,
    )
}

pub open spec fn tinted_wall(dist: int, v: int, t: Tint) -> Rgb {
    Rgb {
        r: wall_channel(dist, v, t.r as int) as u8,
        g: wall_channel(dist, v, t.g as int) as u8,
        b: wall_channel(dist, v, t.b as int) as u8,
    }
}

pub open spec fn tinted_floor(h: int, j: int, v: int, t: Tint) -> Rgb {
    Rgb {
        r: floor_channel(h, j, v, t.r as int) as u8,
        g: floor_channel(h, j, v, t.g as int) as u8,
        b: floor_channel(h, j, v, t.b as int) as u8,
    }
}

/// The colour of row `j` of a column whose wall is at fixed-point distance
/// `dist` on face `side`, with vignette weight `v`, on a screen `h` high.
pub open spec fn pixel(dist: int, side: Side, v: int, h: int, j: int) -> Rgb {
    if is_wall_row(dist, h, j) {
        tinted_wall(dist, v, side_tint(side))
    } else {
        tinted_floor(h, j, v, floor_tint())
    }
}

/// All rows of such a column, top to bottom.
pub open spec fn column_pixels(dist: int, side: Side, v: int, h: int) -> Seq<Rgb> {
    Seq::new(h as nat, |j: int| pixel(dist, side, v, h, j))
}

/// Arguments the shader accepts: a vignette weight in `[0, ONE]` and a
/// screen height in range.
pub open spec fn shade_args_ok(v: int, h: int) -> bool {
    0 <= v <= ONE && 1 <= h <= MAX_SCREEN
}

/// Cuts a channel value `num / den` in `[0, 1]` down to `levels` steps and
/// scales it to a byte.
pub fn quantize(num: u128, den: u128, levels: u8) -> (r: u8)
    requires
        0 < den,
        num <= den,
        den <= 0x1_0000_0000_0000_0000_0000,
        1 <= levels,
    ensures
        r == quantized(num as int, den as int, levels as int),
{
    proof {
        let l = levels as int;
        let n = num as int;
        let e = den as int;
        assert(l * n <= l * e) by (nonlinear_arith)
            requires
                n <= e,
                0 <= l,
        ;
        assert((l * n) / e <= l) by {
            vstd::arithmetic::div_mod::lemma_div_is_ordered(l * n, l * e, e);
            vstd::arithmetic::div_mod::lemma_div_by_multiple(l, e);
        }
        assert(0 <= (l * n) / e) by {
            vstd::arithmetic::div_mod::lemma_div_pos_is_pos(l * n, e);
        }
        assert(((l * n) / e) * 255 / l <= 255) by (nonlinear_arith)
            requires
                (l * n) / e <= l,
                0 <= (l * n) / e,
                1 <= l,
        ;
        assert(l * n <= 255 * 0x1_0000_0000_0000_0000_0000) by (nonlinear_arith)
            requires
                l <= 255,
                0 <= n <= e,
                e <= 0x1_0000_0000_0000_0000_0000,
        ;
    }
    let q = (levels as u128) * num / den;
    (q * 255 / (levels as u128)) as u8
}

/// Projected wall height, as `wall_height` states it.
pub fn projected_height(dist: u64, h: usize) -> (r: usize)
    requires
        h <= MAX_SCREEN,
    ensures
        r == wall_height(dist as int, h as int),
{
    if dist == 0 {
        h
    } else {
        let q = (h as u64) * ONE / dist;
        if q < h as u64 {
            q as usize
        } else {
            h
        }
    }
}

/// A wall farther away never projects taller than a nearer one, on the same
/// screen; and a wall at most one cell away fills the whole screen height.
pub proof fn lemma_wall_height_monotonic(near: int, far: int, h: int)
    requires
        0 <= near <= far,
        0 <= h,
    ensures
        wall_height(far, h) <= wall_height(near, h),
        near <= ONE ==> wall_height(near, h) == h,
{
    if near > 0 {
        vstd::arithmetic::div_mod::lemma_div_is_ordered_by_denominator(h * ONE, near, far);
        if near <= ONE {
            vstd::arithmetic::div_mod::lemma_div_is_ordered_by_denominator(h * ONE, near, ONE as int);
            vstd::arithmetic::div_mod::lemma_div_by_multiple(h, ONE as int);
        }
    }
}

/// The fog factor lies in `(0, 1]`; it is `1` exactly at distance zero; and
/// from `n` cells away on it is below `1 / n`, so it tends to zero.
pub proof fn lemma_fog_range(dist: int, n: int)
    requires
        0 <= dist,
    ensures
        0 < fog_num(dist) <= fog_den(dist),
        fog_num(dist) == fog_den(dist) <==> dist == 0,
        1 <= n && n * ONE <= dist ==> n * fog_num(dist) < fog_den(dist),
{
    assert(dist * dist >= 0) by (nonlinear_arith);
    assert(dist > 0 ==> dist * dist > 0) by (nonlinear_arith);
    if 1 <= n && n * ONE <= dist {
        let k = ONE as int;
        assert(n * (k * k) < dist * dist + k * k) by (nonlinear_arith)
            requires
                1 <= n,
                n * k <= dist,
                k == ONE,
        ;
    }
}

/// The fog factor falls strictly as the distance grows.
pub proof fn lemma_fog_decreasing(near: int, far: int)
    requires
        0 <= near < far,
    ensures
        fog_num(far) * fog_den(near) < fog_num(near) * fog_den(far),
{
    let k = ONE as int;
    assert((k * k) * (near * near + k * k) < (k * k) * (far * far + k * k)) by (nonlinear_arith)
        requires
            0 <= near < far,
            k == ONE,
    ;
}

/// Shading the same column twice, from the same distance, face, vignette
/// weight and height, gives the same pixels byte for byte.
pub proof fn lemma_shading_repeatable(dist: int, side: Side, v: int, h: int, first: Seq<Rgb>, second: Seq<Rgb>)
    requires
        first == column_pixels(dist, side, v, h),
        second == column_pixels(dist, side, v, h),
    ensures
        first == second,
{
}

fn tint_for(side: Side) -> (r: Tint)
    ensures
        r == side_tint(side),
{
    match side {
        Side::X => Tint { r: 900, g: 300, b: 800 },
        Side::Y => Tint { r: 300, g: 800, b: 900 },
    }
}

fn wall_byte(dist: u64, v: u64, t: u64) -> (r: u8)
    requires
        in_depth(dist as int),
        v <= ONE,
        t <= TINT_ONE,
    ensures
        r == wall_channel(dist as int, v as int, t as int) as u8,
{
    let d = dist as u128;
    let one = ONE as u128;
    proof {
        assert(d * d <= (FAR_CELLS * ONE) * (FAR_CELLS * ONE)) by (nonlinear_arith)
            requires
                d < FAR_CELLS * ONE,
        ;
        assert(v * (one * one) * t <= one * (d * d + one * one) * TINT_ONE) by (nonlinear_arith)
            requires
                v <= one,
                t <= TINT_ONE,
                0 <= d,
        ;
        assert(one * (d * d + one * one) * TINT_ONE <= one * ((FAR_CELLS * ONE) * (FAR_CELLS
            * ONE) + one * one) * TINT_ONE) by (nonlinear_arith)
            requires
                d * d <= (FAR_CELLS * ONE) * (FAR_CELLS * ONE),
                one == ONE,
        ;
        assert(v * (one * one) <= one * (one * one)) by (nonlinear_arith)
            requires
                v <= one,
        ;
    }
    let num = (v as u128) * (one * one) * (t as u128);
    let den = one * (d * d + one * one) * (TINT_ONE as u128);
    quantize(num, den, LEVELS)
}

fn floor_byte(h: usize, j: usize, v: u64, t: u64) -> (r: u8)
    requires
        1 <= h <= MAX_SCREEN,
        j < h,
        v <= ONE,
        t <= TINT_ONE,
    ensures
        r == floor_channel(h as int, j as int, v as int, t as int) as u8,
{
    let hh = h as u128;
    let jj = j as u128;
    let a: u128 = if 2 * jj <= hh {
        hh - 2 * jj
    } else {
        2 * jj - hh
    };
    let one = ONE as u128;
    proof {
        let s = h - 2 * j;
        assert(a * a == s * s) by (nonlinear_arith)
            requires
                a == s || a == -s,
        ;
        assert(a * a <= hh * hh) by (nonlinear_arith)
            requires
                0 <= a <= hh,
        ;
        assert(hh * hh <= MAX_SCREEN * MAX_SCREEN) by (nonlinear_arith)
            requires
                0 <= hh <= MAX_SCREEN,
        ;
        assert(v * (a * a) * t <= one * (hh * hh) * TINT_ONE) by (nonlinear_arith)
            requires
                v <= one,
                t <= TINT_ONE,
                a * a <= hh * hh,
        ;
        assert(one * (hh * hh) * TINT_ONE <= one * (MAX_SCREEN * MAX_SCREEN) * TINT_ONE)
            by (nonlinear_arith)
            requires
                hh * hh <= MAX_SCREEN * MAX_SCREEN,
                one == ONE,
        ;
        assert(0 < one * (hh * hh) * TINT_ONE) by (nonlinear_arith)
            requires
                1 <= hh,
                one == ONE,
        ;
    }
    assert(v * (a * a) <= one * (MAX_SCREEN * MAX_SCREEN)) by (nonlinear_arith)
        requires
            v <= one,
            a * a <= hh * hh,
            hh * hh <= MAX_SCREEN * MAX_SCREEN,
    ;
    let num = (v as u128) * (a * a) * (t as u128);
    let den = one * (hh * hh) * (TINT_ONE as u128);
    quantize(num, den, LEVELS)
}

/// The colour of row `j` of one screen column: wall inside the projected
/// band when the wall lies between the near and far planes, else floor or
/// ceiling.
pub fn shade_pixel(dist: u64, side: Side, v: u64, h: usize, j: usize) -> (r: Rgb)
    requires
        shade_args_ok(v as int, h as int),
        j < h,
    ensures
        r == pixel(dist as int, side, v as int, h as int, j as int),
{
    let wh = projected_height(dist, h);
    let start = (h - wh) / 2;
    let end = h - start;
    if j >= start && j < end && dist < FAR_CELLS * ONE && NEAR_DIV * dist > ONE {
        let t = tint_for(side);
        Rgb { r: wall_byte(dist, v, t.r), g: wall_byte(dist, v, t.g), b: wall_byte(dist, v, t.b) }
    } else {
        let t = Tint { r: 700, g: 200, b: 100 };
        Rgb {
            r: floor_byte(h, j, v, t.r),
            g: floor_byte(h, j, v, t.g),
            b: floor_byte(h, j, v, t.b),
        }
    }
}

/// Shades one screen column, top to bottom, for a wall at fixed-point
/// distance `dist` hit on face `side`, with vignette weight `v` (in
/// `[0, ONE]`, full brightness at `ONE`), on a screen `h` pixels high.
pub fn shade_column(dist: u64, side: Side, v: u64, h: usize) -> (r: Vec<Rgb>)
    requires
        shade_args_ok(v as int, h as int),
    ensures
        r@ == column_pixels(dist as int, side, v as int, h as int),
{
    let mut out: Vec<Rgb> = Vec::with_capacity(h);
    let mut j: usize = 0;
    while j < h
        invariant
            shade_args_ok(v as int, h as int),
            j <= h,
            out@.len() == j,
            forall|k: int| 0 <= k < j ==> out@[k] == pixel(dist as int, side, v as int, h as int, k),
        decreases h - j,
    {
        out.push(shade_pixel(dist, side, v, h, j));
        j = j + 1;
    }
    assert(out@ =~= column_pixels(dist as int, side, v as int, h as int));
    out
}

} // verus!
