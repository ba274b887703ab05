use vstd::prelude::*;

use crate::fixed::{abs, Dir, ONE};
use crate::grid::{Grid, MAX_SIDE};
use crate::player::{facing_ok, Player, MAX_PLANE_SCALE};
use crate::ray::{cast, hit_of, is_first_hit, lemma_corridor_distance, RayHit, Side};
use crate::shade::{pixel, shade_pixel, MAX_SCREEN};

verus! {

/// Bytes per pixel in the frame buffer: red, green, blue, alpha.
pub const BYTES_PER_PIXEL: usize = 4;

/// Screen sizes the compositor accepts.
pub open spec fn screen_ok(width: int, height: int) -> bool {
    1 <= width <= MAX_SCREEN && 1 <= height <= MAX_SCREEN
}

/// The direction of the ray through screen column `column`:
/// `width * ONE` times `facing + camera_plane * (2 * column / width - 1)`,
/// with the camera plane taken exactly as the facing turned a quarter turn
/// and scaled by `plane_scale / ONE`.
pub open spec fn column_dir(player: Player, column: int, width: int) -> Dir {
    let f = player.facing;
    let s = width * ONE;
    let c = player.plane_scale * (2 * column - width);
    Dir { x: (f.x * s - f.y * c) as i64, y: (f.y * s + f.x * c) as i64 }
}

/// The first wall seen through screen column `column`.
pub open spec fn column_hit(grid: Grid, player: Player, column: int, width: int) -> RayHit {
    hit_of(grid, player.position, column_dir(player, column, width))
}

/// The distance to a hit seen through a column of a screen `width` wide, in
/// fixed-point cells along a facing of length `ONE`, rounded down and capped
/// at `u64::MAX`.
pub open spec fn view_distance(r: RayHit, width: int) -> int {
    let v = r.dist_num * (width * ONE) * ONE / (r.dist_den as int);
    if v > u64::MAX {
        u64::MAX as int
    } else {
        v
    }
}

/// Byte `idx` of the frame: pixels row by row, four bytes each, the fourth
/// fully opaque.
pub open spec fn frame_byte(
    grid: Grid,
    player: Player,
    vignette: Seq<u64>,
    width: int,
    height: int,
    idx: int,
) -> u8 {
    let p = idx / 4;
    let i = p % width;
    let j = p / width;
    let r = column_hit(grid, player, i, width);
    let px = pixel(view_distance(r, width), r.side, vignette[i] as int, height, j);
    let c = idx % 4;
    if c == 0 {
        px.r
    } else if c == 1 {
        px.g
    } else if c == 2 {
        px.b
    } else {
        255
    }
}

/// The ray direction for screen column `column`, as `column_dir` states it.
pub fn column_direction(player: &Player, column: usize, width: usize) -> (r: Dir)
    requires
        facing_ok(player.facing),
        player.plane_scale <= MAX_PLANE_SCALE,
        1 <= width <= MAX_SCREEN,
        column < width,
    ensures
        r == column_dir(*player, column as int, width as int),
        !r.is_zero(),
        r.bounded(),
{
    let f = player.facing;
    let s: i64 = (width as i64) * (ONE as i64);
    let offset: i64 = 2 * (column as i64) - (width as i64);
    let ghost m = (MAX_SCREEN * ONE) as int;
    assert(abs(player.plane_scale * offset) <= 3 * m) by (nonlinear_arith)
        requires
            0 <= player.plane_scale <= MAX_PLANE_SCALE,
            abs(offset as int) <= MAX_SCREEN,
            m == MAX_SCREEN * ONE,
    ;
    assert(0 < s <= m) by (nonlinear_arith)
        requires
            1 <= width <= MAX_SCREEN,
            s == width * ONE,
            m == MAX_SCREEN * ONE,
    ;
    let c: i64 = (player.plane_scale as i64) * offset;
    proof {
        assert(abs(f.x * s) <= ONE * m && abs(f.y * c) <= 3 * ONE * m && abs(f.y * s) <= ONE * m
            && abs(f.x * c) <= 3 * ONE * m) by (nonlinear_arith)
            requires
                abs(f.x as int) <= ONE,
                abs(f.y as int) <= ONE,
                abs(c as int) <= 3 * m,
                0 < s <= m,
        ;
        let x = f.x * s - f.y * c;
        let y = f.y * s + f.x * c;
        assert(x * f.x + y * f.y == s * (f.x * f.x + f.y * f.y)) by (nonlinear_arith)
            requires
                x == f.x * s - f.y * c,
                y == f.y * s + f.x * c,
        ;
        assert(s * (f.x * f.x + f.y * f.y) > 0) by (nonlinear_arith)
            requires
                s > 0,
                f.x != 0 || f.y != 0,
        ;
        if x == 0 && y == 0 {
            assert(x * f.x + y * f.y == 0) by (nonlinear_arith)
                requires
                    x == 0,
                    y == 0,
            ;
        }
    }
    Dir { x: f.x * s - f.y * c, y: f.y * s + f.x * c }
}

/// Casts the ray through screen column `column` from the player's position.
pub fn cast_column(grid: &Grid, player: &Player, column: usize, width: usize) -> (r: RayHit)
    requires
        grid.wf(),
        player.wf(*grid),
        1 <= width <= MAX_SCREEN,
        column < width,
    ensures
        r == column_hit(*grid, *player, column as int, width as int),
        is_first_hit(*grid, player.position, column_dir(*player, column as int, width as int), r),
        r.dist_den > 0,
        r.dist_num <= ONE * MAX_SIDE,
{
    let d = column_direction(player, column, width);
    cast(grid, player.position, d)
}

/// The centre column of a screen of even width looks straight along the
/// facing. A player facing due east down a row that is open up to a wall in
/// column `wall` sees that wall there, on a vertical face, at a view
/// distance of exactly `wall * ONE - position.x`: the gap to the face.
pub proof fn lemma_centre_ray_distance(grid: Grid, player: Player, width: int, wall: int, r: RayHit)
    requires
        1 <= width <= MAX_SCREEN,
        width % 2 == 0,
        player.facing == (Dir { x: ONE as i64, y: 0 }),
        player.position.cell_x() < wall,
        forall|c: int|
            player.position.cell_x() < c < wall ==> #[trigger] grid.tile(c, player.position.cell_y())
                == 0,
        grid.tile(wall, player.position.cell_y()) > 0,
        is_first_hit(grid, player.position, column_dir(player, width / 2, width), r),
    ensures
        column_dir(player, width / 2, width) == (Dir { x: (width * ONE * ONE) as i64, y: 0 }),
        r.cell_x == wall,
        r.cell_y == player.position.cell_y(),
        r.side == Side::X,
        view_distance(r, width) == wall * ONE - player.position.x,
{
    let s = width * ONE;
    assert(2 * (width / 2) - width == 0);
    assert(0 < s * ONE <= MAX_SCREEN * ONE * ONE) by (nonlinear_arith)
        requires
            s == width * ONE,
            1 <= width <= MAX_SCREEN,
    ;
    let d = column_dir(player, width / 2, width);
    assert(d == (Dir { x: (s * ONE) as i64, y: 0 })) by (nonlinear_arith)
        requires
            d == column_dir(player, width / 2, width),
            2 * (width / 2) - width == 0,
            player.facing == (Dir { x: ONE as i64, y: 0 }),
            s == width * ONE,
    ;
    lemma_corridor_distance(grid, player.position, d, r, wall);
    let n = r.dist_num as int;
    assert(n * s * ONE == n * (s * ONE)) by (nonlinear_arith);
    vstd::arithmetic::div_mod::lemma_div_multiples_vanish(n, s * ONE);
    assert(n * (s * ONE) == (s * ONE) * n) by (nonlinear_arith);
}

/// `view_distance`, computed.
pub fn distance_in_view(r: &RayHit, width: usize) -> (d: u64)
    requires
        r.dist_den > 0,
        r.dist_num <= ONE * MAX_SIDE,
        1 <= width <= MAX_SCREEN,
    ensures
        d == view_distance(*r, width as int),
{
    let s = (width as u128) * (ONE as u128);
    proof {
        assert(s <= MAX_SCREEN * ONE) by (nonlinear_arith)
            requires
                width <= MAX_SCREEN,
                s == width * ONE,
        ;
        assert(r.dist_num * s * ONE <= (ONE * MAX_SIDE) * (MAX_SCREEN * ONE) * ONE)
            by (nonlinear_arith)
            requires
                r.dist_num <= ONE * MAX_SIDE,
                0 <= s <= MAX_SCREEN * ONE,
        ;
        assert(r.dist_num * s <= (ONE * MAX_SIDE) * (MAX_SCREEN * ONE)) by (nonlinear_arith)
            requires
                r.dist_num <= ONE * MAX_SIDE,
                0 <= s <= MAX_SCREEN * ONE,
        ;
    }
    let v = (r.dist_num as u128) * s * (ONE as u128) / (r.dist_den as u128);
    if v > u64::MAX as u128 {
        u64::MAX
    } else {
        v as u64
    }
}

/// What the compositor keeps of column `k`: its view distance and face.
spec fn column_summary(grid: Grid, player: Player, k: int, width: int, e: (u64, Side)) -> bool {
    let r = column_hit(grid, player, k, width);
    e.0 as int == view_distance(r, width) && e.1 == r.side
}

proof fn lemma_pixel_bytes(p: int, c: int)
    requires
        0 <= p,
        0 <= c < 4,
    ensures
        (4 * p + c) / 4 == p,
        (4 * p + c) % 4 == c,
{
    vstd::arithmetic::div_mod::lemma_fundamental_div_mod_converse(4 * p + c, 4, p, c);
}

/// Draws one frame: for each screen column, casts its ray, shades the
/// column and writes it, so that every byte of the frame is overwritten.
/// `vignette` gives each column's brightness weight, in `[0, ONE]`.
pub fn render(
    grid: &Grid,
    player: &Player,
    vignette: &Vec<u64>,
    width: usize,
    height: usize,
    frame: &mut Vec<u8>,
)
    requires
        grid.wf(),
        player.wf(*grid),
        screen_ok(width as int, height as int),
        vignette@.len() == width,
        forall|k: int| 0 <= k < width ==> #[trigger] vignette@[k] <= ONE,
        old(frame)@.len() == BYTES_PER_PIXEL * (width * height),
    ensures
        final(frame)@.len() == old(frame)@.len(),
        forall|idx: int|
            0 <= idx < final(frame)@.len() ==> #[trigger] final(frame)@[idx] == frame_byte(
                *grid,
                *player,
                vignette@,
                width as int,
                height as int,
                idx,
            ),
{
    let mut columns: Vec<(u64, Side)> = Vec::with_capacity(width);
    let mut i: usize = 0;
    while i < width
        invariant
            grid.wf(),
            player.wf(*grid),
            screen_ok(width as int, height as int),
            i <= width,
            columns@.len() == i,
            forall|k: int|
                0 <= k < i ==> column_summary(*grid, *player, k, width as int, #[trigger] columns@[k]),
        decreases width - i,
    {
        let hit = cast_column(grid, player, i, width);
        let d = distance_in_view(&hit, width);
        columns.push((d, hit.side));
        i = i + 1;
    }
    let ghost len = frame@.len();
    assert(width * height <= MAX_SCREEN * MAX_SCREEN) by (nonlinear_arith)
        requires
            screen_ok(width as int, height as int),
    ;
    let total = width * height;
    let mut p: usize = 0;
    while p < total
        invariant
            grid.wf(),
            player.wf(*grid),
            screen_ok(width as int, height as int),
            total == width * height,
            total <= MAX_SCREEN * MAX_SCREEN,
            p <= total,
            frame@.len() == len,
            len == BYTES_PER_PIXEL * total,
            columns@.len() == width,
            vignette@.len() == width,
            forall|k: int| 0 <= k < width ==> #[trigger] vignette@[k] <= ONE,
            forall|k: int|
                0 <= k < width ==> column_summary(*grid, *player, k, width as int, #[trigger] columns@[k]),
            forall|idx: int|
                0 <= idx < 4 * p ==> #[trigger] frame@[idx] == frame_byte(
                    *grid,
                    *player,
                    vignette@,
                    width as int,
                    height as int,
                    idx,
                ),
        decreases total - p,
    {
        let col = p % width;
        let row = p / width;
        proof {
            vstd::arithmetic::div_mod::lemma_fundamental_div_mod(p as int, width as int);
            vstd::arithmetic::div_mod::lemma_mod_bound(p as int, width as int);
            assert(row < height) by (nonlinear_arith)
                requires
                    p == width * row + col,
                    0 <= col,
                    p < width * height,
                    1 <= width,
            ;
        }
        let (d, side) = columns[col];
        let px = shade_pixel(d, side, vignette[col], height, row);
        let base = 4 * p;
        proof {
            lemma_pixel_bytes(p as int, 0);
            lemma_pixel_bytes(p as int, 1);
            lemma_pixel_bytes(p as int, 2);
            lemma_pixel_bytes(p as int, 3);
        }
        frame[base] = px.r;
        frame[base + 1] = px.g;
        frame[base + 2] = px.b;
        frame[base + 3] = 255;
        proof {
            let r = column_hit(*grid, *player, col as int, width as int);
            assert(column_summary(*grid, *player, col as int, width as int, columns@[col as int]));
            assert(d as int == view_distance(r, width as int) && side == r.side);
            assert(frame@[base as int] == frame_byte(*grid, *player, vignette@, width as int, height as int, base as int));
            assert(frame@[base + 1] == frame_byte(*grid, *player, vignette@, width as int, height as int, base + 1));
            assert(frame@[base + 2] == frame_byte(*grid, *player, vignette@, width as int, height as int, base + 2));
            assert(frame@[base + 3] == frame_byte(*grid, *player, vignette@, width as int, height as int, base + 3));
        }
        p = p + 1;
    }
}

} // verus!
