use vstd::prelude::*;

verus! {

/// Largest number of cells along either side of a grid.
pub const MAX_SIDE: usize = 4096;

/// A fixed tile map, stored row by row. Tile `0` is open floor; any other
/// value is a solid wall of that variant.
#[derive(Debug)]
pub struct Grid {
    pub width: usize,
    pub height: usize,
    pub tiles: Vec<u32>,
}

impl Grid {
    /// The tile at column `x`, row `y`.
    pub open spec fn tile(self, x: int, y: int) -> u32 {
        self.tiles@[y * self.width + x]
    }

    pub open spec fn in_bounds(self, x: int, y: int) -> bool {
        0 <= x < self.width && 0 <= y < self.height
    }

    pub open spec fn on_border(self, x: int, y: int) -> bool {
        x == 0 || y == 0 || x == self.width - 1 || y == self.height - 1
    }

    /// A cell that is neither outside the grid nor on its border.
    pub open spec fn interior(self, x: int, y: int) -> bool {
        1 <= x < self.width - 1 && 1 <= y < self.height - 1
    }

    pub open spec fn border_solid(self) -> bool {
        forall|x: int, y: int|
            self.in_bounds(x, y) && self.on_border(x, y) ==> #[trigger] self.tile(x, y) > 0
    }

    pub open spec fn valid_size(width: int, height: int) -> bool {
        3 <= width <= MAX_SIDE && 3 <= height <= MAX_SIDE
    }

    /// Well-formed: sensible dimensions, one tile per cell, solid all round.
    pub open spec fn wf(self) -> bool {
        &&& Self::valid_size(self.width as int, self.height as int)
        &&& self.tiles@.len() == self.width * self.height
        &&& self.border_solid()
    }

    /// Builds a grid from its rows, laid end to end. Fails unless the sizes
    /// are in range, there is one tile per cell and every border tile is solid.
    pub fn new(width: usize, height: usize, tiles: Vec<u32>) -> (r: Option<Grid>)
        ensures
            r is Some <==> ({
                let g = Grid { width, height, tiles };
                Self::valid_size(width as int, height as int) && tiles@.len() == width * height
                    && g.border_solid()
            }),
            r is Some ==> r.unwrap() == (Grid { width, height, tiles }),
    {
        if width < 3 || width > MAX_SIDE || height < 3 || height > MAX_SIDE {
            return None;
        }
        assert(width * height <= MAX_SIDE * MAX_SIDE) by (nonlinear_arith)
            requires
                0 <= width <= MAX_SIDE,
                0 <= height <= MAX_SIDE,
        ;
        if tiles.len() != width * height {
            return None;
        }
        let g = Grid { width, height, tiles };
        let mut y: usize = 0;
        while y < height
            invariant
                g == (Grid { width, height, tiles }),
                Self::valid_size(width as int, height as int),
                g.tiles@.len() == width * height,
                0 <= y <= height,
                forall|a: int, b: int|
                    0 <= b < y && g.in_bounds(a, b) && g.on_border(a, b) ==> #[trigger] g.tile(a, b)
                        > 0,
            decreases height - y,
        {
            let mut x: usize = 0;
            while x < width
                invariant
                    g == (Grid { width, height, tiles }),
                    Self::valid_size(width as int, height as int),
                    g.tiles@.len() == width * height,
                    0 <= y < height,
                    0 <= x <= width,
                    forall|a: int, b: int|
                        0 <= b < y && g.in_bounds(a, b) && g.on_border(a, b) ==> #[trigger] g.tile(
                            a,
                            b,
                        ) > 0,
                    forall|a: int| 0 <= a < x && g.on_border(a, y as int) ==> #[trigger] g.tile(a, y as int) > 0,
                decreases width - x,
            {
                proof {
                    lemma_index_in_range(x as int, y as int, width as int, height as int);
                }
                let k = y * width + x;
                if (x == 0 || y == 0 || x == width - 1 || y == height - 1) && g.tiles[k] == 0 {
                    assert(g.in_bounds(x as int, y as int) && g.on_border(x as int, y as int)
                        && g.tile(x as int, y as int) == 0);
                    return None;
                }
                x = x + 1;
            }
            y = y + 1;
        }
        Some(g)
    }

    /// The tile at column `x`, row `y`.
    pub fn tile_at(&self, x: usize, y: usize) -> (r: u32)
        requires
            self.wf(),
            self.in_bounds(x as int, y as int),
        ensures
            r == self.tile(x as int, y as int),
    {
        proof {
            lemma_index_in_range(x as int, y as int, self.width as int, self.height as int);
        }
        self.tiles[y * self.width + x]
    }

    /// Every open cell of a well-formed grid lies inside its border.
    pub proof fn lemma_open_is_interior(self, x: int, y: int)
        requires
            self.wf(),
            self.in_bounds(x, y),
            self.tile(x, y) == 0,
        ensures
            self.interior(x, y),
    {
    }
}

/// Cell `(x, y)` of a `width` by `height` grid has an index inside its storage.
pub proof fn lemma_index_in_range(x: int, y: int, width: int, height: int)
    requires
        0 <= x < width,
        0 <= y < height,
        height <= MAX_SIDE,
        width <= MAX_SIDE,
    ensures
        0 <= y * width <= y * width + x < width * height <= MAX_SIDE * MAX_SIDE,
{
    assert(width * height <= MAX_SIDE * MAX_SIDE) by (nonlinear_arith)
        requires
            0 <= width <= MAX_SIDE,
            0 <= height <= MAX_SIDE,
    ;
    assert(0 <= y * width) by (nonlinear_arith)
        requires
            0 <= y,
            0 <= width,
    ;
    assert(y * width + x < width * height) by (nonlinear_arith)
        requires
            0 <= x < width,
            0 <= y < height,
    ;
}

} // verus!
