use vstd::prelude::*;

use crate::fixed::{abs, div_trunc, Dir, Point, ONE};
use crate::grid::{Grid, MAX_SIDE};

verus! {

/// Distance walked per update, in fixed-point units (0.05 of a cell).
pub const SPEED: u64 = 3277;

/// How far ahead of the player a wall is looked for, in fixed-point units
/// (a quarter of a cell).
pub const WALL_PADDING: u64 = 16384;

/// `1 / sqrt(2)` in fixed point: scales a diagonal input down to unit length.
pub const INV_SQRT2: u64 = 46341;

/// The movement keys held down.
#[derive(Clone, Copy, Debug, PartialEq, Eq, Structural)]
pub struct Keys {
    pub forward: bool,
    pub back: bool,
    pub left: bool,
    pub right: bool,
}

/// The viewer: where it stands, which way it looks, and the length of its
/// camera plane relative to the facing vector (`ONE` for a right angle of
/// view). The camera plane is the facing vector turned a quarter turn.
#[derive(Clone, Copy, Debug, PartialEq, Eq, Structural)]
pub struct Player {
    pub position: Point,
    pub facing: Dir,
    pub plane_scale: u64,
}

/// `1`, `-1` or `0` for a pair of opposite keys.
pub open spec fn key_axis(plus: bool, minus: bool) -> int {
    (if plus {
        1int
    } else {
        0int
    }) - (if minus {
        1int
    } else {
        0int
    })
}

/// `v` times a sign `s` in `{-1, 0, 1}`.
pub open spec fn signed(v: int, s: int) -> int {
    if s > 0 {
        v
    } else if s < 0 {
        -v
    } else {
        0
    }
}

/// Scales a movement component by the walking speed, and by `1 / sqrt(2)`
/// when two keys at right angles are held.
pub open spec fn at_speed(raw: int, diagonal: bool) -> int {
    if diagonal {
        div_trunc(raw * SPEED * INV_SQRT2, ONE * ONE)
    } else {
        div_trunc(raw * SPEED, ONE as int)
    }
}

/// The offset the held keys ask for: forward along `f`, sideways along `f`
/// turned a quarter turn.
pub open spec fn movement_of(f: Dir, keys: Keys) -> Dir {
    let ax = key_axis(keys.forward, keys.back);
    let ay = key_axis(keys.right, keys.left);
    let diagonal = ax != 0 && ay != 0;
    Dir {
        x: at_speed(signed(f.x as int, ax) - signed(f.y as int, ay), diagonal) as i64,
        y: at_speed(signed(f.y as int, ax) + signed(f.x as int, ay), diagonal) as i64,
    }
}

/// `WALL_PADDING` in the direction of `v`.
pub open spec fn pad(v: int) -> int {
    if v > 0 {
        WALL_PADDING as int
    } else if v < 0 {
        -(WALL_PADDING as int)
    } else {
        0
    }
}

/// Where a wall is looked for along one axis: the coordinate after the move
/// `d`, a padding further on in the direction of travel.
pub open spec fn probe(v: int, d: int) -> int {
    v + d + pad(d)
}

/// The row after the vertical part of a move: taken only if the cell under
/// the padded new row, in the current column, is open.
pub open spec fn slid_y(grid: Grid, p: Point, m: Dir) -> int {
    if grid.tile(p.cell_x(), probe(p.y as int, m.y as int) / (ONE as int)) == 0 {
        p.y + m.y
    } else {
        p.y as int
    }
}

/// The column after the horizontal part of a move: taken only if the cell
/// under the padded new column, in the current row, is open.
pub open spec fn slid_x(grid: Grid, p: Point, m: Dir) -> int {
    if grid.tile(probe(p.x as int, m.x as int) / (ONE as int), p.cell_y()) == 0 {
        p.x + m.x
    } else {
        p.x as int
    }
}

/// Where a move by `m` from `p` ends, each axis checked against the walls on
/// its own, so that a blocked axis leaves the other free to slide.
pub open spec fn slid(grid: Grid, p: Point, m: Dir) -> Point {
    Point { x: slid_x(grid, p, m) as u64, y: slid_y(grid, p, m) as u64 }
}

/// Largest camera plane scale: a field of view of a little over 140 degrees.
pub const MAX_PLANE_SCALE: u64 = 196608;

/// A facing vector the player accepts: of unit length (`ONE`) up to
/// rounding, so no component beyond one cell.
pub open spec fn facing_ok(f: Dir) -> bool {
    &&& !f.is_zero()
    &&& abs(f.x as int) <= ONE
    &&& abs(f.y as int) <= ONE
    &&& abs(f.x * f.x + f.y * f.y - ONE * ONE) <= 2 * ONE
}

/// Whether `f` is a facing vector the player accepts.
pub fn facing_valid(f: Dir) -> (r: bool)
    ensures
        r == facing_ok(f),
{
    let one = ONE as i64;
    if f.x == 0 && f.y == 0 {
        return false;
    }
    if f.x < -one || f.x > one || f.y < -one || f.y > one {
        return false;
    }
    assert(f.x * f.x <= ONE * ONE && f.y * f.y <= ONE * ONE) by (nonlinear_arith)
        requires
            abs(f.x as int) <= ONE,
            abs(f.y as int) <= ONE,
    ;
    assert(f.x * f.x >= 0 && f.y * f.y >= 0) by (nonlinear_arith);
    let len2 = f.x * f.x + f.y * f.y - one * one;
    -2 * one <= len2 && len2 <= 2 * one
}

/// The coordinate `probe(v, d)`, for a coordinate of an interior cell.
fn probe_exec(v: u64, d: i64) -> (r: u64)
    requires
        ONE <= v <= ONE * MAX_SIDE,
        abs(d as int) < WALL_PADDING,
    ensures
        r == probe(v as int, d as int),
{
    if d > 0 {
        v + d as u64 + WALL_PADDING
    } else if d < 0 {
        v - (-d) as u64 - WALL_PADDING
    } else {
        v
    }
}

/// A move the player accepts: shorter than the padding on each axis.
pub open spec fn step_ok(m: Dir) -> bool {
    abs(m.x as int) < WALL_PADDING && abs(m.y as int) < WALL_PADDING
}

/// Adding a coordinate and an offset whose sum is known not to be negative.
fn offset(a: u64, d: i64) -> (r: u64)
    requires
        0 <= a + d <= u64::MAX,
        abs(d as int) < WALL_PADDING,
    ensures
        r == a + d,
{
    if d >= 0 {
        a + d as u64
    } else {
        a - (-d) as u64
    }
}

/// `b` lies between `a` and `c`, less than a cell apart: its cell is the
/// cell of one of them.
proof fn lemma_cell_between(a: int, b: int, c: int)
    requires
        0 <= a,
        0 <= c,
        a <= b <= c || c <= b <= a,
        abs(c - a) < ONE,
    ensures
        b / (ONE as int) == a / (ONE as int) || b / (ONE as int) == c / (ONE as int),
{
    let k = ONE as int;
    vstd::arithmetic::div_mod::lemma_fundamental_div_mod(a, k);
    vstd::arithmetic::div_mod::lemma_fundamental_div_mod(b, k);
    vstd::arithmetic::div_mod::lemma_fundamental_div_mod(c, k);
    vstd::arithmetic::div_mod::lemma_mod_bound(a, k);
    vstd::arithmetic::div_mod::lemma_mod_bound(b, k);
    vstd::arithmetic::div_mod::lemma_mod_bound(c, k);
}

/// The probe from a coordinate of an interior cell, for a move shorter than
/// the padding, lies in the grid, within a cell of the coordinate, and the
/// moved coordinate lies between the two.
proof fn lemma_probe_in_bounds(v: int, limit: int, d: int)
    requires
        1 <= v / (ONE as int) < limit - 1,
        0 <= v,
        abs(d) < WALL_PADDING,
    ensures
        0 <= probe(v, d),
        0 <= probe(v, d) / (ONE as int) < limit,
        abs(probe(v, d) - v) < ONE,
        v <= v + d <= probe(v, d) || probe(v, d) <= v + d <= v,
{
    let k = ONE as int;
    vstd::arithmetic::div_mod::lemma_fundamental_div_mod(v, k);
    vstd::arithmetic::div_mod::lemma_fundamental_div_mod(probe(v, d), k);
    vstd::arithmetic::div_mod::lemma_mod_bound(v, k);
    vstd::arithmetic::div_mod::lemma_mod_bound(probe(v, d), k);
}

/// `v` times the sign `s`.
fn signed_exec(v: i64, s: i64) -> (r: i64)
    requires
        abs(v as int) <= ONE,
    ensures
        r == signed(v as int, s as int),
{
    if s > 0 {
        v
    } else if s < 0 {
        -v
    } else {
        0
    }
}

/// `at_speed`, for a raw component of at most two cells.
fn speed_scaled(raw: i64, diagonal: bool) -> (r: i64)
    requires
        abs(raw as int) <= 2 * ONE,
    ensures
        r == at_speed(raw as int, diagonal),
        abs(r as int) < WALL_PADDING,
{
    let (num, den): (i64, i64) = if diagonal {
        (raw * (SPEED as i64) * (INV_SQRT2 as i64), (ONE * ONE) as i64)
    } else {
        (raw * (SPEED as i64), ONE as i64)
    };
    let bound: i64 = 2 * (SPEED as i64) * (den as i64);
    proof {
        if diagonal {
            assert(abs(num as int) <= 2 * ONE * SPEED * INV_SQRT2) by (nonlinear_arith)
                requires
                    abs(raw as int) <= 2 * ONE,
                    num == raw * SPEED * INV_SQRT2,
            ;
        } else {
            assert(abs(num as int) <= 2 * ONE * SPEED) by (nonlinear_arith)
                requires
                    abs(raw as int) <= 2 * ONE,
                    num == raw * SPEED,
            ;
        }
        assert(abs(num as int) <= bound);
        vstd::arithmetic::div_mod::lemma_div_is_ordered(abs(num as int), bound as int, den as int);
        vstd::arithmetic::div_mod::lemma_div_by_multiple(2 * SPEED, den as int);
        vstd::arithmetic::div_mod::lemma_div_pos_is_pos(abs(num as int), den as int);
    }
    if num >= 0 {
        num / den
    } else {
        -((-num) / den)
    }
}

/// The offset the held keys ask for, as `movement_of` states it: forward
/// and sideways axes, each `1`, `-1` or `0`, turned by the facing, scaled to
/// the walking speed and, for a diagonal, down to unit length.
pub fn movement(facing: Dir, keys: Keys) -> (r: Dir)
    requires
        facing_ok(facing),
    ensures
        r == movement_of(facing, keys),
        step_ok(r),
{
    let ax: i64 = (if keys.forward {
        1i64
    } else {
        0i64
    }) - (if keys.back {
        1i64
    } else {
        0i64
    });
    let ay: i64 = (if keys.right {
        1i64
    } else {
        0i64
    }) - (if keys.left {
        1i64
    } else {
        0i64
    });
    let diagonal = ax != 0 && ay != 0;
    let raw_x = signed_exec(facing.x, ax) - signed_exec(facing.y, ay);
    let raw_y = signed_exec(facing.y, ax) + signed_exec(facing.x, ay);
    Dir { x: speed_scaled(raw_x, diagonal), y: speed_scaled(raw_y, diagonal) }
}

/// Wall sliding. A player right against a wall on the east, within a
/// padding of it, who moves east keeps its column; a move along `y` made at
/// the same time is still taken when the cell under the padded new row is
/// open.
pub proof fn lemma_wall_slide(grid: Grid, p: Point, m: Dir)
    requires
        grid.wf(),
        grid.interior(p.cell_x(), p.cell_y()),
        step_ok(m),
        m.x > 0,
        grid.tile(p.cell_x() + 1, p.cell_y()) > 0,
        p.x + WALL_PADDING >= (p.cell_x() + 1) * ONE,
    ensures
        slid(grid, p, m).x == p.x,
        grid.tile(p.cell_x(), probe(p.y as int, m.y as int) / (ONE as int)) == 0 ==> slid(
            grid,
            p,
            m,
        ).y == p.y + m.y,
{
    let k = ONE as int;
    lemma_probe_in_bounds(p.y as int, grid.height as int, m.y as int);
    vstd::arithmetic::div_mod::lemma_fundamental_div_mod(p.x as int, k);
    vstd::arithmetic::div_mod::lemma_mod_bound(p.x as int, k);
    let q = probe(p.x as int, m.x as int);
    vstd::arithmetic::div_mod::lemma_fundamental_div_mod_converse(
        q,
        k,
        p.cell_x() + 1,
        q - (p.cell_x() + 1) * k,
    );
}

impl Player {
    /// The player stands strictly inside the grid's border and has a usable
    /// facing and field of view.
    pub open spec fn wf(self, grid: Grid) -> bool {
        &&& grid.interior(self.position.cell_x(), self.position.cell_y())
        &&& facing_ok(self.facing)
        &&& self.plane_scale <= MAX_PLANE_SCALE
    }

    /// The camera plane: the facing vector turned a quarter turn and scaled
    /// by `plane_scale / ONE`, each component rounded toward zero.
    pub open spec fn plane(self) -> Dir {
        Dir {
            x: div_trunc(-self.facing.y * self.plane_scale, ONE as int) as i64,
            y: div_trunc(self.facing.x * self.plane_scale, ONE as int) as i64,
        }
    }

    /// A player at `position` looking along `facing`. Fails unless the
    /// position is in an open cell inside the border, the facing is of unit
    /// length up to rounding, and `plane_scale` is at most `MAX_PLANE_SCALE`.
    pub fn new(grid: &Grid, position: Point, facing: Dir, plane_scale: u64) -> (r: Option<Player>)
        requires
            grid.wf(),
        ensures
            r is Some <==> (Player { position, facing, plane_scale }).wf(*grid) && grid.tile(
                position.cell_x(),
                position.cell_y(),
            ) == 0,
            r is Some ==> r.unwrap() == (Player { position, facing, plane_scale }),
    {
        let p = Player { position, facing, plane_scale };
        let cx = position.x / ONE;
        let cy = position.y / ONE;
        if cx >= grid.width as u64 || cy >= grid.height as u64 {
            return None;
        }
        if grid.tile_at(cx as usize, cy as usize) != 0 {
            return None;
        }
        proof {
            if grid.tile(cx as int, cy as int) == 0 {
                grid.lemma_open_is_interior(cx as int, cy as int);
            }
        }
        if !facing_valid(facing) {
            return None;
        }
        if plane_scale > MAX_PLANE_SCALE {
            return None;
        }
        Some(p)
    }

    /// The camera plane, as `plane` states it.
    pub fn camera_plane(&self) -> (r: Dir)
        requires
            facing_ok(self.facing),
            self.plane_scale <= MAX_PLANE_SCALE,
        ensures
            r == self.plane(),
    {
        let k = self.plane_scale as i64;
        let one = ONE as i64;
        proof {
            assert(abs(self.facing.y * k) <= ONE * MAX_PLANE_SCALE) by (nonlinear_arith)
                requires
                    abs(self.facing.y as int) <= ONE,
                    0 <= k <= MAX_PLANE_SCALE,
            ;
            assert(abs(self.facing.x * k) <= ONE * MAX_PLANE_SCALE) by (nonlinear_arith)
                requires
                    abs(self.facing.x as int) <= ONE,
                    0 <= k <= MAX_PLANE_SCALE,
            ;
        }
        let fy = self.facing.y * k;
        let a = -fy;
        let b = self.facing.x * k;
        assert(a == -self.facing.y * self.plane_scale) by (nonlinear_arith)
            requires
                fy == self.facing.y * k,
                a == -fy,
                k == self.plane_scale,
        ;
        let x = if a >= 0 {
            a / one
        } else {
            -((-a) / one)
        };
        let y = if b >= 0 {
            b / one
        } else {
            -((-b) / one)
        };
        Dir { x, y }
    }

    /// Turns the player to look along `facing`; the camera plane turns with it.
    pub fn turn_to(&mut self, facing: Dir)
        requires
            facing_ok(facing),
        ensures
            final(self).facing == facing,
            final(self).position == old(self).position,
            final(self).plane_scale == old(self).plane_scale,
    {
        self.facing = facing;
    }

    /// Moves by `m`, each axis on its own: an axis whose padded new
    /// coordinate falls in a solid cell, the other axis held where it was,
    /// is left as it was, while the other still moves. The player stays
    /// inside the border.
    pub fn advance(&mut self, grid: &Grid, m: Dir)
        requires
            grid.wf(),
            old(self).wf(*grid),
            step_ok(m),
        ensures
            final(self).position == slid(*grid, old(self).position, m),
            final(self).facing == old(self).facing,
            final(self).plane_scale == old(self).plane_scale,
            final(self).wf(*grid),
    {
        let p = self.position;
        let ghost k = ONE as int;
        proof {
            lemma_probe_in_bounds(p.y as int, grid.height as int, m.y as int);
            lemma_probe_in_bounds(p.x as int, grid.width as int, m.x as int);
            vstd::arithmetic::div_mod::lemma_fundamental_div_mod(p.x as int, k);
            vstd::arithmetic::div_mod::lemma_fundamental_div_mod(p.y as int, k);
            vstd::arithmetic::div_mod::lemma_mod_bound(p.x as int, k);
            vstd::arithmetic::div_mod::lemma_mod_bound(p.y as int, k);
        }
        let cx = p.x / ONE;
        let cy = p.y / ONE;
        let probe_y = probe_exec(p.y, m.y);
        let y = if grid.tile_at(cx as usize, (probe_y / ONE) as usize) == 0 {
            offset(p.y, m.y)
        } else {
            p.y
        };
        let probe_x = probe_exec(p.x, m.x);
        let x = if grid.tile_at((probe_x / ONE) as usize, cy as usize) == 0 {
            offset(p.x, m.x)
        } else {
            p.x
        };
        proof {
            lemma_cell_between(p.y as int, y as int, probe_y as int);
            lemma_cell_between(p.x as int, x as int, probe_x as int);
            if y != p.y {
                grid.lemma_open_is_interior(p.cell_x(), probe_y as int / k);
            }
            if x != p.x {
                grid.lemma_open_is_interior(probe_x as int / k, p.cell_y());
            }
        }
        self.position = Point { x, y };
    }

    /// One update: the player turns to `facing`, then moves as the held keys
    /// ask, along the new facing, sliding along walls.
    pub fn update(&mut self, grid: &Grid, keys: Keys, facing: Dir)
        requires
            grid.wf(),
            old(self).wf(*grid),
            facing_ok(facing),
        ensures
            final(self).facing == facing,
            final(self).position == slid(*grid, old(self).position, movement_of(facing, keys)),
            final(self).plane_scale == old(self).plane_scale,
            final(self).wf(*grid),
    {
        self.turn_to(facing);
        let m = movement(facing, keys);
        self.advance(grid, m);
    }
}

} // verus!
