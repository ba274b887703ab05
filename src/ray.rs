use vstd::prelude::*;

use crate::fixed::{abs, abs_i64, Dir, Point, MAX_DIR, ONE};
use crate::grid::{Grid, MAX_SIDE};

verus! {

/// Which family of grid lines a ray crossed to reach the wall it hit.
#[derive(Clone, Copy, Debug, PartialEq, Eq, Structural)]
pub enum Side {
    /// A vertical line (constant `x`): an east or west face.
    X,
    /// A horizontal line (constant `y`): a north or south face.
    Y,
}

/// The first wall a ray meets. The ray parameter at the wall face is
/// `dist_num / dist_den`, measured in multiples of the direction it was cast
/// along, so a direction of length `ONE` gives the distance in cells.
#[derive(Clone, Copy, Debug, PartialEq, Eq, Structural)]
pub struct RayHit {
    pub cell_x: usize,
    pub cell_y: usize,
    pub side: Side,
    pub tile: u32,
    pub dist_num: u64,
    pub dist_den: u64,
    /// How many grid lines the ray crossed, the last one into the wall.
    pub steps: usize,
}

/// Numerator of the ray parameter at the first grid line ahead, along one
/// axis, from coordinate `o` moving with sign of `d`; the denominator is `|d|`.
pub open spec fn first_gap(o: int, d: int) -> int {
    if d > 0 {
        (o / (ONE as int) + 1) * ONE - o
    } else {
        o - (o / (ONE as int)) * ONE
    }
}

/// Numerator of the ray parameter at the `k`-th grid line ahead (from 0).
pub open spec fn gap(o: int, d: int, k: int) -> int {
    first_gap(o, d) + k * ONE
}

/// The cell coordinate reached after crossing `k` grid lines along one axis.
pub open spec fn cell_after(o: int, d: int, k: int) -> int {
    if d > 0 {
        o / (ONE as int) + k
    } else {
        o / (ONE as int) - k
    }
}

/// Having crossed `i` vertical and `j` horizontal lines, the next crossing is
/// a vertical line: its parameter is strictly the smaller one (a tie goes to
/// the horizontal line), and an axis the ray does not move along is never taken.
pub open spec fn next_is_x(o: Point, d: Dir, i: int, j: int) -> bool {
    d.x != 0 && (d.y == 0 || gap(o.x as int, d.x as int, i) * abs(d.y as int) < gap(
        o.y as int,
        d.y as int,
        j,
    ) * abs(d.x as int))
}

/// The numbers of vertical and horizontal lines crossed after `n` steps.
pub open spec fn crossings(o: Point, d: Dir, n: nat) -> (int, int)
    decreases n,
{
    if n == 0 {
        (0, 0)
    } else {
        let (i, j) = crossings(o, d, (n - 1) as nat);
        if next_is_x(o, d, i, j) {
            (i + 1, j)
        } else {
            (i, j + 1)
        }
    }
}

/// Column of the cell the ray is in after `n` steps.
pub open spec fn cell_x_at(o: Point, d: Dir, n: nat) -> int {
    cell_after(o.x as int, d.x as int, crossings(o, d, n).0)
}

/// Row of the cell the ray is in after `n` steps.
pub open spec fn cell_y_at(o: Point, d: Dir, n: nat) -> int {
    cell_after(o.y as int, d.y as int, crossings(o, d, n).1)
}

/// Whether step `n` (from 1) crosses a vertical line.
pub open spec fn side_at(o: Point, d: Dir, n: nat) -> Side {
    let (i, j) = crossings(o, d, (n - 1) as nat);
    if next_is_x(o, d, i, j) {
        Side::X
    } else {
        Side::Y
    }
}

/// Numerator of the ray parameter at step `n` (from 1).
pub open spec fn entry_num(o: Point, d: Dir, n: nat) -> int {
    let (i, j) = crossings(o, d, (n - 1) as nat);
    if next_is_x(o, d, i, j) {
        gap(o.x as int, d.x as int, i)
    } else {
        gap(o.y as int, d.y as int, j)
    }
}

/// Denominator of the ray parameter at step `n` (from 1).
pub open spec fn entry_den(o: Point, d: Dir, n: nat) -> int {
    if side_at(o, d, n) == Side::X {
        abs(d.x as int)
    } else {
        abs(d.y as int)
    }
}

/// The cell entered at step `n` is open floor.
pub open spec fn open_at(grid: Grid, o: Point, d: Dir, n: nat) -> bool {
    grid.tile(cell_x_at(o, d, n), cell_y_at(o, d, n)) == 0
}

/// Where a ray may start: inside a cell within the border.
pub open spec fn valid_origin(grid: Grid, o: Point) -> bool {
    grid.interior(o.cell_x(), o.cell_y())
}

/// Which way a ray may point: anywhere but nowhere, within range.
pub open spec fn valid_dir(d: Dir) -> bool {
    !d.is_zero() && d.bounded()
}

/// The grid coordinate of the wall face that was hit, on the axis of `side`.
pub open spec fn face_coord(r: RayHit, d: Dir) -> int {
    if r.side == Side::X {
        if d.x > 0 {
            r.cell_x as int
        } else {
            r.cell_x + 1
        }
    } else {
        if d.y > 0 {
            r.cell_y as int
        } else {
            r.cell_y + 1
        }
    }
}

/// `r` describes the first solid cell that the ray from `o` along `d` enters.
pub open spec fn is_first_hit(grid: Grid, o: Point, d: Dir, r: RayHit) -> bool {
    &&& r.steps >= 1
    &&& forall|m: nat| 1 <= m < r.steps ==> #[trigger] open_at(grid, o, d, m)
    &&& r.cell_x == cell_x_at(o, d, r.steps as nat)
    &&& r.cell_y == cell_y_at(o, d, r.steps as nat)
    &&& grid.in_bounds(r.cell_x as int, r.cell_y as int)
    &&& r.tile == grid.tile(r.cell_x as int, r.cell_y as int)
    &&& r.tile > 0
    &&& r.side == side_at(o, d, r.steps as nat)
    &&& r.dist_num == entry_num(o, d, r.steps as nat)
    &&& r.dist_den == entry_den(o, d, r.steps as nat)
}

/// The first wall hit by the ray from `o` along `d`; `cast` returns it.
pub open spec fn hit_of(grid: Grid, o: Point, d: Dir) -> RayHit {
    choose|r: RayHit| is_first_hit(grid, o, d, r)
}

/// A ray has at most one first hit.
pub proof fn lemma_first_hit_unique(grid: Grid, o: Point, d: Dir, a: RayHit, b: RayHit)
    requires
        is_first_hit(grid, o, d, a),
        is_first_hit(grid, o, d, b),
    ensures
        a == b,
{
    if a.steps < b.steps {
        assert(open_at(grid, o, d, a.steps as nat));
    } else if b.steps < a.steps {
        assert(open_at(grid, o, d, b.steps as nat));
    }
}

proof fn lemma_crossings_along_x(o: Point, d: Dir, n: nat)
    requires
        d.y == 0,
        d.x != 0,
    ensures
        crossings(o, d, n) == (n as int, 0int),
    decreases n,
{
    if n > 0 {
        lemma_crossings_along_x(o, d, (n - 1) as nat);
    }
}

/// Along a corridor that runs east from the cell of `o` and is open up to a
/// wall in column `wall`, a ray cast due east stops at that wall, on a
/// vertical face, and its parameter is exactly the distance from `o` to that
/// face: `(wall * ONE - o.x) / d.x`.
pub proof fn lemma_corridor_distance(grid: Grid, o: Point, d: Dir, r: RayHit, wall: int)
    requires
        d.y == 0,
        d.x > 0,
        o.cell_x() < wall,
        forall|c: int| o.cell_x() < c < wall ==> #[trigger] grid.tile(c, o.cell_y()) == 0,
        grid.tile(wall, o.cell_y()) > 0,
        is_first_hit(grid, o, d, r),
    ensures
        r.cell_x == wall,
        r.cell_y == o.cell_y(),
        r.side == Side::X,
        r.dist_den == d.x,
        r.dist_num == wall * ONE - o.x,
{
    let n = r.steps as nat;
    lemma_crossings_along_x(o, d, n);
    lemma_crossings_along_x(o, d, (n - 1) as nat);
    if o.cell_x() + n < wall {
        assert(grid.tile(o.cell_x() + n, o.cell_y()) == 0);
    } else if o.cell_x() + n > wall {
        let m = (wall - o.cell_x()) as nat;
        lemma_crossings_along_x(o, d, m);
        assert(open_at(grid, o, d, m));
    }
}

/// How many cells the ray can still enter along each axis before the border.
spec fn room_left(grid: Grid, d: Dir, cx: int, cy: int) -> int {
    (if d.x > 0 {
        grid.width - 1 - cx
    } else if d.x < 0 {
        cx
    } else {
        0
    }) + (if d.y > 0 {
        grid.height - 1 - cy
    } else if d.y < 0 {
        cy
    } else {
        0
    })
}

proof fn lemma_first_gap_bounds(o: int, d: int)
    requires
        0 <= o,
    ensures
        0 <= first_gap(o, d) <= ONE,
{
    let q = o / (ONE as int);
    assert(q * ONE <= o < q * ONE + ONE) by {
        vstd::arithmetic::div_mod::lemma_fundamental_div_mod(o, ONE as int);
    }
}

/// Casts a ray from `o` along `d` through the grid, stepping from cell to
/// cell across grid lines in order of the ray parameter, and stops at the
/// first solid cell. The solid border guarantees that it gets there.
pub fn cast(grid: &Grid, o: Point, d: Dir) -> (r: RayHit)
    requires
        grid.wf(),
        valid_origin(*grid, o),
        valid_dir(d),
    ensures
        is_first_hit(*grid, o, d, r),
        r == hit_of(*grid, o, d),
        r.dist_den > 0,
        r.dist_num <= ONE * MAX_SIDE,
        r.dist_num == abs(face_coord(r, d) * ONE - (if r.side == Side::X {
            o.x as int
        } else {
            o.y as int
        })),
        d.y == 0 ==> r.side == Side::X,
        d.x == 0 ==> r.side == Side::Y,
{
    let ax = abs_i64(d.x);
    let ay = abs_i64(d.y);
    let mut cx: usize = (o.x / ONE) as usize;
    let mut cy: usize = (o.y / ONE) as usize;
    proof {
        lemma_first_gap_bounds(o.x as int, d.x as int);
        lemma_first_gap_bounds(o.y as int, d.y as int);
    }
    let mut gx: u64 = if d.x > 0 {
        (o.x / ONE + 1) * ONE - o.x
    } else {
        o.x - (o.x / ONE) * ONE
    };
    let mut gy: u64 = if d.y > 0 {
        (o.y / ONE + 1) * ONE - o.y
    } else {
        o.y - (o.y / ONE) * ONE
    };
    let mut n: usize = 0;
    let ghost mut i: int = 0;
    let ghost mut j: int = 0;
    loop
        invariant
            grid.wf(),
            valid_origin(*grid, o),
            valid_dir(d),
            ax == abs(d.x as int),
            ay == abs(d.y as int),
            crossings(o, d, n as nat) == (i, j),
            n == i + j,
            0 <= i,
            0 <= j,
            d.x == 0 ==> i == 0,
            d.y == 0 ==> j == 0,
            cx == cell_after(o.x as int, d.x as int, i),
            cy == cell_after(o.y as int, d.y as int, j),
            gx == gap(o.x as int, d.x as int, i),
            gy == gap(o.y as int, d.y as int, j),
            0 <= first_gap(o.x as int, d.x as int) <= ONE,
            0 <= first_gap(o.y as int, d.y as int) <= ONE,
            i <= grid.width,
            j <= grid.height,
            grid.interior(cx as int, cy as int),
            forall|m: nat| 1 <= m <= n ==> #[trigger] open_at(*grid, o, d, m),
        decreases room_left(*grid, d, cx as int, cy as int),
    {
        let ghost n0 = n as nat;
        proof {
            let bound = (ONE * (MAX_SIDE + 1)) as int;
            assert(gx <= bound && gy <= bound);
            assert((gx as int) * (ay as int) <= bound * MAX_DIR) by (nonlinear_arith)
                requires
                    0 <= gx <= bound,
                    0 <= ay <= MAX_DIR,
            ;
            assert((gy as int) * (ax as int) <= bound * MAX_DIR) by (nonlinear_arith)
                requires
                    0 <= gy <= bound,
                    0 <= ax <= MAX_DIR,
            ;
        }
        let step_x = ax != 0 && (ay == 0 || (gx as u128) * (ay as u128) < (gy as u128) * (
        ax as u128));
        let side;
        let num;
        let den;
        if step_x {
            side = Side::X;
            num = gx;
            den = ax;
            gx = gx + ONE;
            if d.x > 0 {
                cx = cx + 1;
            } else {
                cx = cx - 1;
            }
            proof {
                i = i + 1;
            }
        } else {
            side = Side::Y;
            num = gy;
            den = ay;
            gy = gy + ONE;
            if d.y > 0 {
                cy = cy + 1;
            } else {
                cy = cy - 1;
            }
            proof {
                j = j + 1;
            }
        }
        n = n + 1;
        assert(crossings(o, d, n as nat) == (i, j));
        let t = grid.tile_at(cx, cy);
        if t > 0 {
            let r = RayHit { cell_x: cx, cell_y: cy, side, tile: t, dist_num: num, dist_den: den, steps: n };
            assert(n0 == (n - 1) as nat);
            assert(is_first_hit(*grid, o, d, r));
            proof {
                lemma_first_hit_unique(*grid, o, d, r, hit_of(*grid, o, d));
            }
            return r;
        }
        proof {
            grid.lemma_open_is_interior(cx as int, cy as int);
            assert(open_at(*grid, o, d, n as nat));
        }
    }
}

} // verus!
