//! Integer vector geometry of the hexagonal grid.
//!
//! Cells live in a skewed two-axis coordinate system: `x` runs along the true
//! horizontal axis, `y` along the rightward-shearing diagonal axis, so the six
//! unit steps from a cell to its edge-adjacent neighbours are `(±1, 0)`,
//! `(0, ±1)`, `(-1, 1)` and `(1, -1)`.

use vstd::prelude::*;

verus! {

/// A cell of the hexagonal board, in axial coordinates.
#[derive(Clone, Copy, PartialEq, Eq, Structural, Debug)]
pub struct Position {
    pub x: i32,
    pub y: i32,
}

/// Bound that every coordinate of a board cell respects; it keeps all the
/// vector arithmetic on cells far away from `i32` overflow.
pub open spec fn in_coord_range(x: int, y: int) -> bool {
    -8 <= x <= 8 && -8 <= y <= 8
}

/// The six unit steps that connect a cell to its edge-adjacent neighbours.
pub open spec fn is_unit_dir(cx: int, cy: int) -> bool {
    ||| (cx == 1 && cy == 0)
    ||| (cx == 0 && cy == 1)
    ||| (cx == -1 && cy == 1)
    ||| (cx == -1 && cy == 0)
    ||| (cx == 0 && cy == -1)
    ||| (cx == 1 && cy == -1)
}

/// `c * k` for a component `c` of a unit direction (so `c` is -1, 0 or 1),
/// written without a multiplication so that reasoning about it stays linear.
pub open spec fn scaled(c: int, k: int) -> int
    recommends
        -1 <= c <= 1,
{
    if c == 1 {
        k
    } else if c == -1 {
        -k
    } else {
        0
    }
}

/// The vector `(dx, dy)` is the `k`-fold positive multiple of the unit
/// direction `(cx, cy)`.
pub open spec fn dir_multiple(dx: int, dy: int, cx: int, cy: int, k: int) -> bool {
    &&& is_unit_dir(cx, cy)
    &&& k >= 1
    &&& dx == scaled(cx, k)
    &&& dy == scaled(cy, k)
}

/// A vector is a positive multiple of at most one of the six unit directions,
/// and with at most one factor: the classification of a pair of distinct
/// collinear cells into a direction and a distance is unique.
pub proof fn lemma_dir_multiple_unique(
    dx: int,
    dy: int,
    cx1: int,
    cy1: int,
    k1: int,
    cx2: int,
    cy2: int,
    k2: int,
)
    requires
        dir_multiple(dx, dy, cx1, cy1, k1),
        dir_multiple(dx, dy, cx2, cy2, k2),
    ensures
        cx1 == cx2,
        cy1 == cy2,
        k1 == k2,
{
}

/// Negating a vector negates the direction and keeps the factor: the two
/// orders of a pair of cells classify to opposite directions and the same
/// distance.
pub proof fn lemma_dir_multiple_negate(dx: int, dy: int, cx: int, cy: int, k: int)
    requires
        dir_multiple(dx, dy, cx, cy, k),
    ensures
        dir_multiple(-dx, -dy, -cx, -cy, k),
        is_unit_dir(-cx, -cy),
{
}

} // verus!
