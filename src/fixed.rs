use vstd::prelude::*;

verus! {

/// Fixed-point units in one grid cell (and in one unit of length).
pub const ONE: u64 = 65536;

/// Largest magnitude of a direction component, in fixed-point units.
pub const MAX_DIR: i64 = 0x4000_0000_0000;

/// A point of the plane in fixed-point units; the cell holding it is
/// `(x / ONE, y / ONE)`.
#[derive(Clone, Copy, Debug, PartialEq, Eq, Structural)]
pub struct Point {
    pub x: u64,
    pub y: u64,
}

/// A direction (or offset) of the plane in fixed-point units.
#[derive(Clone, Copy, Debug, PartialEq, Eq, Structural)]
pub struct Dir {
    pub x: i64,
    pub y: i64,
}

pub open spec fn abs(a: int) -> int {
    if a < 0 {
        -a
    } else {
        a
    }
}

/// Truncating division, rounding toward zero as integer division does.
pub open spec fn div_trunc(a: int, b: int) -> int {
    if a >= 0 {
        a / b
    } else {
        -((-a) / b)
    }
}

impl Point {
    pub open spec fn cell_x(self) -> int {
        self.x as int / (ONE as int)
    }

    pub open spec fn cell_y(self) -> int {
        self.y as int / (ONE as int)
    }
}

impl Dir {
    pub open spec fn is_zero(self) -> bool {
        self.x == 0 && self.y == 0
    }

    /// Within the range the ray caster accepts.
    pub open spec fn bounded(self) -> bool {
        abs(self.x as int) <= MAX_DIR && abs(self.y as int) <= MAX_DIR
    }
}

/// `|a|` as an unsigned number.
pub fn abs_i64(a: i64) -> (r: u64)
    requires
        abs(a as int) <= MAX_DIR,
    ensures
        r == abs(a as int),
{
    if a < 0 {
        (-a) as u64
    } else {
        a as u64
    }
}

} // verus!
