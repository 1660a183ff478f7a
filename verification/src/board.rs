//! The board: the fixed set of legal cells, their occupants, and the
//! in-progress move path.
//!
//! The legal cells are a central hexagon of radius 4 together with six
//! triangular home regions of 10 cells each, one per edge of the hexagon.
//! In the square `-4..=4` of the skewed coordinate system the hexagon shows
//! up as the 61 cells with `|x + y| <= 4`; the two corner triangles of that
//! square are home regions 1 and 4, and the four remaining regions lie
//! outside the square. Occupancy is the board's whole mutable state besides
//! the path and whose turn it is.

use vstd::prelude::*;

use crate::coords::{
    dir_multiple, in_coord_range, lemma_dir_multiple_unique, Position,
};
use crate::player::{piece_of_index, turn_of_index, Mode, Piece, Turn};

verus! {

/// The central hexagon of radius 4: every cell within 4 steps of the centre.
pub open spec fn in_center_hex(x: int, y: int) -> bool {
    -4 <= x <= 4 && -4 <= y <= 4 && -4 <= x + y <= 4
}

/// Whether `(x, y)` lies in home region `r` (for `r` in 1..=6).
///
/// Regions 2 and 3 mirror each other by swapping the axes, regions 4, 5 and 6
/// are the point negations of 1, 2 and 3: the board is edge- and
/// point-symmetric. Each region is a triangle of 4+3+2+1 = 10 cells.
pub open spec fn in_region(r: int, x: int, y: int) -> bool {
    if r == 1 {
        1 <= x <= 4 && 1 <= y <= 4 && x + y >= 5
    } else if r == 2 {
        5 <= y <= 8 && -4 <= x <= 4 - y
    } else if r == 3 {
        5 <= x <= 8 && -4 <= y <= 4 - x
    } else if r == 4 {
        -4 <= x <= -1 && -4 <= y <= -1 && x + y <= -5
    } else if r == 5 {
        -8 <= y <= -5 && -4 - y <= x <= 4
    } else if r == 6 {
        -8 <= x <= -5 && -4 - x <= y <= 4
    } else {
        false
    }
}

/// The home region holding `(x, y)`, or 0 when it lies in none.
pub open spec fn region_of(x: int, y: int) -> int {
    if in_region(1, x, y) {
        1
    } else if in_region(2, x, y) {
        2
    } else if in_region(3, x, y) {
        3
    } else if in_region(4, x, y) {
        4
    } else if in_region(5, x, y) {
        5
    } else if in_region(6, x, y) {
        6
    } else {
        0
    }
}

/// Whether `(x, y)` is one of the 121 legal cells: the central hexagon plus
/// the six home regions.
pub open spec fn is_cell(x: int, y: int) -> bool {
    in_center_hex(x, y) || region_of(x, y) != 0
}

/// Whether a position is a legal cell.
pub open spec fn pos_is_cell(p: Position) -> bool {
    is_cell(p.x as int, p.y as int)
}

/// Every legal cell has both coordinates within the board's coordinate bound.
pub proof fn lemma_cell_in_range(x: int, y: int)
    requires
        is_cell(x, y),
    ensures
        in_coord_range(x, y),
{
}

/// The player group a home region belongs to under a mode: with six players
/// each region is its own group; with three, opposite pairs merge; with two,
/// three consecutive regions merge per side.
pub open spec fn region_group(mode: Mode, r: int) -> int
    recommends
        1 <= r <= 6,
{
    match mode {
        Mode::Six => r,
        Mode::Three => if r <= 2 {
            1
        } else if r <= 4 {
            2
        } else {
            3
        },
        Mode::Two => if r <= 3 {
            1
        } else {
            2
        },
    }
}

/// The piece seeded into home region `r` by a reset under `mode`.
pub open spec fn region_owner(mode: Mode, r: int) -> Piece {
    piece_of_index(region_group(mode, r))
}

/// The turn that owns the pieces seeded into home region `r` under `mode`.
pub open spec fn turn_for_region(mode: Mode, r: int) -> Turn {
    turn_of_index(region_group(mode, r))
}

/// What a reset under `mode` puts at `(x, y)`: the region's owner inside a
/// home region, the empty occupant everywhere else.
pub open spec fn seeded(mode: Mode, x: int, y: int) -> Piece {
    if region_of(x, y) == 0 {
        Piece::Empty
    } else {
        region_owner(mode, region_of(x, y))
    }
}

/// Flat index of `(x, y)` in the dense backing row of the 17×17 coordinate
/// square.
pub open spec fn idx_of(x: int, y: int) -> int {
    (x + 8) + 17 * (y + 8)
}

/// The x coordinate a flat index stands for.
pub open spec fn x_of(i: int) -> int {
    i % 17 - 8
}

/// The y coordinate a flat index stands for.
pub open spec fn y_of(i: int) -> int {
    i / 17 - 8
}

/// The flat index of an in-range coordinate pair is a sound round trip: it
/// lands in the backing row and recovers both coordinates, so distinct cells
/// use distinct slots.
pub proof fn lemma_idx_of_bounds(x: int, y: int)
    requires
        in_coord_range(x, y),
    ensures
        0 <= idx_of(x, y) < 289,
        x_of(idx_of(x, y)) == x,
        y_of(idx_of(x, y)) == y,
{
}

/// Flat indices of the backing row stand for in-range coordinates, and the
/// round trip closes in this direction too.
pub proof fn lemma_coords_of_idx(i: int)
    requires
        0 <= i < 289,
    ensures
        in_coord_range(x_of(i), y_of(i)),
        idx_of(x_of(i), y_of(i)) == i,
{
}

/// The hexagonal board: every legal cell's occupant, the in-progress move
/// path, and whose turn it is.
pub struct Board {
    backing: Vec<Piece>,
    path: Vec<Position>,
    /// Whose move it is; advanced by the caller after a committed move.
    pub turn: Turn,
}

impl Board {
    /// The occupant at `(x, y)`; meaningful only for in-range coordinates of
    /// a well-formed board.
    pub closed spec fn spec_at(self, x: int, y: int) -> Piece {
        self.backing@[idx_of(x, y)]
    }

    /// The in-progress move path, oldest cell first.
    pub closed spec fn spec_path(self) -> Seq<Position> {
        self.path@
    }

    /// Whose move it is.
    pub closed spec fn spec_turn(self) -> Turn {
        self.turn
    }

    /// Well-formedness: the backing row covers the whole coordinate square
    /// and every path entry is a legal cell.
    pub closed spec fn wf(self) -> bool {
        &&& self.backing@.len() == 289
        &&& forall|i: int|
            0 <= i < self.path@.len() ==> pos_is_cell(#[trigger] self.path@[i])
    }
}

impl Default for Board {
    /// A board with every cell empty, an empty path, and no turn assigned.
    fn default() -> (b: Board)
        ensures
            b.wf(),
            b.spec_path().len() == 0,
            b.spec_turn() is Nobody,
            forall|x: int, y: int|
                in_coord_range(x, y) ==> #[trigger] b.spec_at(x, y) is Empty,
    {
        let mut backing: Vec<Piece> = Vec::new();
        let mut i: usize = 0;
        while i < 289
            invariant
                i <= 289,
                backing@.len() == i,
                forall|j: int| 0 <= j < i ==> #[trigger] backing@[j] is Empty,
            decreases 289 - i,
        {
            backing.push(Piece::Empty);
            i = i + 1;
        }
        let b = Board { backing, path: Vec::new(), turn: Turn::Nobody };
        proof {
            assert forall|x: int, y: int|
                in_coord_range(x, y) implies #[trigger] b.spec_at(x, y) is Empty by {
                lemma_idx_of_bounds(x, y);
            }
        }
        b
    }
}

impl Board {
    /// Whether `(x, y)` is a legal cell of the board.
    fn cell_ok(x: i32, y: i32) -> (r: bool)
        ensures
            r == is_cell(x as int, y as int),
    {
        if x < -8 || x > 8 || y < -8 || y > 8 {
            return false;
        }
        let center = -4 <= x && x <= 4 && -4 <= y && y <= 4 && -4 <= x + y && x + y <= 4;
        let r1 = 1 <= x && x <= 4 && 1 <= y && y <= 4 && x + y >= 5;
        let r2 = 5 <= y && y <= 8 && -4 <= x && x <= 4 - y;
        let r3 = 5 <= x && x <= 8 && -4 <= y && y <= 4 - x;
        let r4 = -4 <= x && x <= -1 && -4 <= y && y <= -1 && x + y <= -5;
        let r5 = -8 <= y && y <= -5 && -4 - y <= x && x <= 4;
        let r6 = -8 <= x && x <= -5 && -4 - x <= y && y <= 4;
        center || r1 || r2 || r3 || r4 || r5 || r6
    }

    /// The home region holding `(x, y)`, or 0 when it lies in none.
    fn region_index(x: i32, y: i32) -> (r: u8)
        requires
            in_coord_range(x as int, y as int),
        ensures
            r as int == region_of(x as int, y as int),
    {
        if 1 <= x && x <= 4 && 1 <= y && y <= 4 && x + y >= 5 {
            1
        } else if 5 <= y && y <= 8 && -4 <= x && x <= 4 - y {
            2
        } else if 5 <= x && x <= 8 && -4 <= y && y <= 4 - x {
            3
        } else if -4 <= x && x <= -1 && -4 <= y && y <= -1 && x + y <= -5 {
            4
        } else if -8 <= y && y <= -5 && -4 - y <= x && x <= 4 {
            5
        } else if -8 <= x && x <= -5 && -4 - x <= y && y <= 4 {
            6
        } else {
            0
        }
    }

    /// What a reset under `mode` puts at `(x, y)`.
    fn seed_at(mode: Mode, x: i32, y: i32) -> (p: Piece)
        requires
            in_coord_range(x as int, y as int),
        ensures
            p == seeded(mode, x as int, y as int),
    {
        let r: u8 = Self::region_index(x, y);
        if r == 0 {
            return Piece::Empty;
        }
        let group: u8 = match mode {
            Mode::Six => r,
            Mode::Three => if r <= 2 {
                1
            } else if r <= 4 {
                2
            } else {
                3
            },
            Mode::Two => if r <= 3 {
                1
            } else {
                2
            },
        };
        match group {
            1 => Piece::Player1,
            2 => Piece::Player2,
            3 => Piece::Player3,
            4 => Piece::Player4,
            5 => Piece::Player5,
            _ => Piece::Player6,
        }
    }

    /// Empties every cell, then seeds the six home regions according to the
    /// mode's region grouping; the path and the turn are left alone.
    pub fn fill(&mut self, mode: Mode)
        requires
            old(self).wf(),
        ensures
            final(self).wf(),
            final(self).spec_path() == old(self).spec_path(),
            final(self).spec_turn() == old(self).spec_turn(),
            forall|x: int, y: int|
                in_coord_range(x, y) ==> #[trigger] final(self).spec_at(x, y) == seeded(
                    mode,
                    x,
                    y,
                ),
    {
        let mut i: usize = 0;
        while i < 289
            invariant
                i <= 289,
                self.backing@.len() == 289,
                self.path@ == old(self).path@,
                self.turn == old(self).turn,
                old(self).wf(),
                forall|j: int|
                    0 <= j < i ==> #[trigger] self.backing@[j] == seeded(mode, x_of(j), y_of(j)),
            decreases 289 - i,
        {
            proof {
                lemma_coords_of_idx(i as int);
            }
            let x: i32 = (i as i32) % 17 - 8;
            let y: i32 = (i as i32) / 17 - 8;
            let p = Self::seed_at(mode, x, y);
            self.backing[i] = p;
            i = i + 1;
        }
        proof {
            assert(self.path@ =~= old(self).path@);
            assert forall|x: int, y: int|
                in_coord_range(x, y) implies #[trigger] self.spec_at(x, y) == seeded(
                mode,
                x,
                y,
            ) by {
                lemma_idx_of_bounds(x, y);
            }
        }
    }

    /// Starts a fresh game: clears and reseeds the whole board for the mode,
    /// abandons any in-progress path, and gives the first player the turn.
    pub fn reset(&mut self, mode: Mode)
        requires
            old(self).wf(),
        ensures
            final(self).wf(),
            final(self).spec_path().len() == 0,
            final(self).spec_turn() == Turn::Player1,
            forall|x: int, y: int|
                in_coord_range(x, y) ==> #[trigger] final(self).spec_at(x, y) == seeded(
                    mode,
                    x,
                    y,
                ),
    {
        self.fill(mode);
        let ghost mid = *self;
        self.path.clear();
        self.turn = Turn::Player1;
        proof {
            assert forall|x: int, y: int|
                in_coord_range(x, y) implies #[trigger] self.spec_at(x, y) == seeded(
                mode,
                x,
                y,
            ) by {
                assert(mid.spec_at(x, y) == seeded(mode, x, y));
            }
        }
    }

    /// The occupant of a cell, or `None` when the position is not a legal
    /// cell of the board.
    pub fn get(&self, position: &Position) -> (r: Option<Piece>)
        requires
            self.wf(),
        ensures
            match r {
                Some(p) => pos_is_cell(*position) && p == self.spec_at(
                    position.x as int,
                    position.y as int,
                ),
                None => !pos_is_cell(*position),
            },
    {
        if Self::cell_ok(position.x, position.y) {
            proof {
                lemma_cell_in_range(position.x as int, position.y as int);
                lemma_idx_of_bounds(position.x as int, position.y as int);
            }
            let i: usize = ((position.x + 8) + 17 * (position.y + 8)) as usize;
            Some(self.backing[i])
        } else {
            None
        }
    }

    /// What the board holds at `(x, y)` after relocating the occupant of
    /// `from` to `to`: `to` takes `from`'s occupant, `from` becomes empty,
    /// every other cell keeps its occupant. (When `from` and `to` coincide
    /// the cell keeps its occupant.)
    pub open spec fn spec_moved_at(self, from: Position, to: Position, x: int, y: int) -> Piece {
        if x == to.x && y == to.y {
            self.spec_at(from.x as int, from.y as int)
        } else if x == from.x && y == from.y {
            Piece::Empty
        } else {
            self.spec_at(x, y)
        }
    }

    /// Relocates the occupant of `from` to `to` and empties `from`,
    /// unconditionally: the caller is answerable for the move's legality,
    /// and both positions must be legal cells.
    pub fn move_piece(&mut self, from: &Position, to: &Position)
        requires
            old(self).wf(),
            pos_is_cell(*from),
            pos_is_cell(*to),
        ensures
            final(self).wf(),
            final(self).spec_path() == old(self).spec_path(),
            final(self).spec_turn() == old(self).spec_turn(),
            forall|x: int, y: int|
                in_coord_range(x, y) ==> #[trigger] final(self).spec_at(x, y) == old(
                    self,
                ).spec_moved_at(*from, *to, x, y),
    {
        proof {
            lemma_cell_in_range(from.x as int, from.y as int);
            lemma_cell_in_range(to.x as int, to.y as int);
            lemma_idx_of_bounds(from.x as int, from.y as int);
            lemma_idx_of_bounds(to.x as int, to.y as int);
        }
        let i: usize = ((from.x + 8) + 17 * (from.y + 8)) as usize;
        let moved = self.backing[i];
        self.backing[i] = Piece::Empty;
        let j: usize = ((to.x + 8) + 17 * (to.y + 8)) as usize;
        self.backing[j] = moved;
        proof {
            assert forall|x: int, y: int|
                in_coord_range(x, y) implies #[trigger] self.spec_at(x, y) == old(
                self,
            ).spec_moved_at(*from, *to, x, y) by {
                lemma_idx_of_bounds(x, y);
            }
        }
    }

    /// The path has at least one edge and its first edge is a simple step
    /// (cardinal distance 1). Such a path can never be extended again.
    pub open spec fn first_edge_simple(self) -> bool {
        self.spec_path().len() >= 2 && exists|cx: int, cy: int|
            #[trigger] dir_multiple(
                self.spec_path()[1].x - self.spec_path()[0].x,
                self.spec_path()[1].y - self.spec_path()[0].y,
                cx,
                cy,
                1,
            )
    }

    /// Whether the in-progress path accepts `new` as its next cell.
    ///
    /// An empty path accepts exactly the cells whose occupant the moving turn
    /// owns under the mode. A started path accepts only empty cells, and only
    /// as a simple step (distance 1) when the path holds a single cell so
    /// far, or as a jump (distance 2) over an occupied intervening cell when
    /// the path did not begin with a simple step: one simple step, or any
    /// number of chained jumps, never both in the same move.
    pub open spec fn push_ok(self, new: Position, turn: Turn, mode: Mode) -> bool {
        if self.spec_path().len() == 0 {
            pos_is_cell(new) && turn.spec_owns(self.spec_at(new.x as int, new.y as int), mode)
        } else {
            let last = self.spec_path().last();
            let dx = new.x - last.x;
            let dy = new.y - last.y;
            &&& pos_is_cell(new)
            &&& self.spec_at(new.x as int, new.y as int) is Empty
            &&& ({
                ||| ((exists|cx: int, cy: int| #[trigger] dir_multiple(dx, dy, cx, cy, 1))
                    && self.spec_path().len() == 1)
                ||| ((exists|cx: int, cy: int|
                    #[trigger] dir_multiple(dx, dy, cx, cy, 2) && is_cell(last.x + cx, last.y + cy) && !(
                    self.spec_at(last.x + cx, last.y + cy) is Empty))
                    && !self.first_edge_simple())
            })
        }
    }

    /// Whether extending the in-progress path with `new` would be legal for
    /// the given turn and mode. The candidate must be a legal cell of the
    /// board.
    pub fn is_legal(&self, new: Position, turn: Turn, mode: Mode) -> (r: bool)
        requires
            self.wf(),
            pos_is_cell(new),
        ensures
            r == self.push_ok(new, turn, mode),
    {
        if self.path.len() == 0 {
            return match self.get(&new) {
                Some(p) => turn.owns(p, mode),
                None => false,
            };
        }
        let target_empty = match self.get(&new) {
            Some(p) => p.is_none(),
            None => false,
        };
        if !target_empty {
            return false;
        }
        let last = self.path[self.path.len() - 1];
        proof {
            lemma_cell_in_range(last.x as int, last.y as int);
            lemma_cell_in_range(new.x as int, new.y as int);
        }
        let ghost dx: int = new.x - last.x;
        let ghost dy: int = new.y - last.y;
        match Self::cardinal_distance(last, new) {
            Some((d, k)) => {
                proof {
                    assert forall|cx: int, cy: int, kk: int|
                        dir_multiple(dx, dy, cx, cy, kk) implies cx == d.x && cy == d.y && kk
                        == k by {
                        lemma_dir_multiple_unique(
                            dx,
                            dy,
                            cx,
                            cy,
                            kk,
                            d.x as int,
                            d.y as int,
                            k as int,
                        );
                    }
                }
                if k == 1 {
                    self.path.len() == 1
                } else if k == 2 {
                    if self.path.len() > 1 && !self.first_edge_jump() {
                        return false;
                    }
                    let mid = Position { x: last.x + d.x, y: last.y + d.y };
                    match self.get(&mid) {
                        Some(p) => !p.is_none(),
                        None => false,
                    }
                } else {
                    false
                }
            },
            None => false,
        }
    }

    /// Whether the path's first edge was a jump rather than a simple step.
    /// Meaningful only while the path holds at least two cells.
    fn first_edge_jump(&self) -> (r: bool)
        requires
            self.wf(),
            self.spec_path().len() >= 2,
        ensures
            r == !self.first_edge_simple(),
    {
        let p0 = self.path[0];
        let p1 = self.path[1];
        proof {
            lemma_cell_in_range(p0.x as int, p0.y as int);
            lemma_cell_in_range(p1.x as int, p1.y as int);
        }
        match Self::cardinal_distance(p0, p1) {
            Some((d, k)) => {
                proof {
                    if k != 1 {
                        assert forall|cx: int, cy: int|
                            !#[trigger] dir_multiple(p1.x - p0.x, p1.y - p0.y, cx, cy, 1) by {
                            if dir_multiple(p1.x - p0.x, p1.y - p0.y, cx, cy, 1) {
                                lemma_dir_multiple_unique(
                                    p1.x - p0.x,
                                    p1.y - p0.y,
                                    cx,
                                    cy,
                                    1,
                                    d.x as int,
                                    d.y as int,
                                    k as int,
                                );
                            }
                        }
                    }
                }
                k != 1
            },
            None => true,
        }
    }

    /// Extends the in-progress path with `new` when that is legal for the
    /// given turn and mode; on rejection nothing changes. The candidate must
    /// be a legal cell of the board.
    pub fn try_push_path(&mut self, new: Position, turn: Turn, mode: Mode) -> (r: bool)
        requires
            old(self).wf(),
            pos_is_cell(new),
        ensures
            final(self).wf(),
            r == old(self).push_ok(new, turn, mode),
            final(self).spec_turn() == old(self).spec_turn(),
            forall|x: int, y: int|
                in_coord_range(x, y) ==> #[trigger] final(self).spec_at(x, y) == old(
                    self,
                ).spec_at(x, y),
            r ==> final(self).spec_path() == old(self).spec_path().push(new),
            !r ==> final(self).spec_path() == old(self).spec_path(),
    {
        if self.is_legal(new, turn, mode) {
            self.path.push(new);
            true
        } else {
            false
        }
    }

    /// Removes the most recently pushed path cell, if any: lets the caller
    /// undo one step of an in-progress move without discarding the path.
    pub fn pop_path(&mut self)
        requires
            old(self).wf(),
        ensures
            final(self).wf(),
            final(self).spec_turn() == old(self).spec_turn(),
            forall|x: int, y: int|
                in_coord_range(x, y) ==> #[trigger] final(self).spec_at(x, y) == old(
                    self,
                ).spec_at(x, y),
            old(self).spec_path().len() == 0 ==> final(self).spec_path() == old(
                self,
            ).spec_path(),
            old(self).spec_path().len() > 0 ==> final(self).spec_path() == old(
                self,
            ).spec_path().drop_last(),
    {
        self.path.pop();
    }

    /// If the path holds more than one cell, relocates the piece from the
    /// path's first cell to its last, clears the path and returns true;
    /// otherwise leaves everything untouched and returns false. Intervening
    /// cells are never changed: jumped-over pieces stay where they are.
    pub fn commit_path(&mut self) -> (r: bool)
        requires
            old(self).wf(),
        ensures
            final(self).wf(),
            final(self).spec_turn() == old(self).spec_turn(),
            r == (old(self).spec_path().len() > 1),
            !r ==> final(self).spec_path() == old(self).spec_path(),
            !r ==> forall|x: int, y: int|
                in_coord_range(x, y) ==> #[trigger] final(self).spec_at(x, y) == old(
                    self,
                ).spec_at(x, y),
            r ==> final(self).spec_path().len() == 0,
            r ==> forall|x: int, y: int|
                in_coord_range(x, y) ==> #[trigger] final(self).spec_at(x, y) == old(
                    self,
                ).spec_moved_at(
                    old(self).spec_path()[0],
                    old(self).spec_path().last(),
                    x,
                    y,
                ),
    {
        if self.path.len() > 1 {
            let first = self.path[0];
            let last = self.path[self.path.len() - 1];
            self.move_piece(&first, &last);
            let ghost mid = *self;
            self.path.clear();
            proof {
                assert forall|x: int, y: int|
                    in_coord_range(x, y) implies #[trigger] self.spec_at(x, y) == old(
                    self,
                ).spec_moved_at(old(self).spec_path()[0], old(self).spec_path().last(), x, y) by {
                    assert(mid.spec_at(x, y) == old(self).spec_moved_at(first, last, x, y));
                }
            }
            true
        } else {
            false
        }
    }

    /// Classifies the step from `v1` to `v2`: the unit direction and the
    /// positive factor that reproduce `v2 - v1` exactly on both axes, or
    /// `None` when the two positions are equal or not collinear along any of
    /// the six directions.
    pub fn cardinal_distance(v1: Position, v2: Position) -> (r: Option<(Position, i32)>)
        requires
            in_coord_range(v1.x as int, v1.y as int),
            in_coord_range(v2.x as int, v2.y as int),
        ensures
            match r {
                Some(dk) => dir_multiple(
                    v2.x - v1.x,
                    v2.y - v1.y,
                    dk.0.x as int,
                    dk.0.y as int,
                    dk.1 as int,
                ),
                None => forall|cx: int, cy: int, k: int|
                    !#[trigger] dir_multiple(v2.x - v1.x, v2.y - v1.y, cx, cy, k),
            },
    {
        let dx: i32 = v2.x - v1.x;
        let dy: i32 = v2.y - v1.y;
        if dx >= 1 && dy == 0 {
            Some((Position { x: 1, y: 0 }, dx))
        } else if dy >= 1 && dx == 0 {
            Some((Position { x: 0, y: 1 }, dy))
        } else if dy >= 1 && dx == -dy {
            Some((Position { x: -1, y: 1 }, dy))
        } else if dx <= -1 && dy == 0 {
            Some((Position { x: -1, y: 0 }, -dx))
        } else if dy <= -1 && dx == 0 {
            Some((Position { x: 0, y: -1 }, -dy))
        } else if dx >= 1 && dy == -dx {
            Some((Position { x: 1, y: -1 }, dx))
        } else {
            None
        }
    }
}

/// The central hexagon lies in no home region, so every reset leaves it
/// entirely empty, whatever the mode.
pub proof fn lemma_center_hex_seeded_empty(mode: Mode, x: int, y: int)
    requires
        in_center_hex(x, y),
    ensures
        seeded(mode, x, y) == Piece::Empty,
{
}

/// A move that began with a simple step is over: no candidate cell, turn or
/// mode can extend the path any further.
pub proof fn lemma_simple_step_is_final(b: Board, new: Position, turn: Turn, mode: Mode)
    requires
        b.first_edge_simple(),
    ensures
        !b.push_ok(new, turn, mode),
{
}

/// Jumps chain: once a move has started and did not begin with a simple
/// step, a jump of distance 2 over an occupied intervening cell onto an
/// empty cell is always accepted.
pub proof fn lemma_jump_push_allowed(
    b: Board,
    new: Position,
    turn: Turn,
    mode: Mode,
    cx: int,
    cy: int,
)
    requires
        b.spec_path().len() >= 1,
        !b.first_edge_simple(),
        pos_is_cell(new),
        b.spec_at(new.x as int, new.y as int) is Empty,
        dir_multiple(
            new.x - b.spec_path().last().x,
            new.y - b.spec_path().last().y,
            cx,
            cy,
            2,
        ),
        is_cell(b.spec_path().last().x + cx, b.spec_path().last().y + cy),
        !(b.spec_at(b.spec_path().last().x + cx, b.spec_path().last().y + cy) is Empty),
    ensures
        b.push_ok(new, turn, mode),
{
}

/// Once a move has started, a candidate cell that is already occupied is
/// always rejected.
pub proof fn lemma_occupied_target_rejected(b: Board, new: Position, turn: Turn, mode: Mode)
    requires
        b.spec_path().len() >= 1,
        !(b.spec_at(new.x as int, new.y as int) is Empty),
    ensures
        !b.push_ok(new, turn, mode),
{
}

/// Ownership follows the seeding: inside a home region, the one turn that
/// owns the seeded occupant is the turn assigned to the region's group under
/// the mode, and no other turn owns it.
pub proof fn lemma_owns_matches_seeding(mode: Mode, t: Turn, x: int, y: int)
    requires
        region_of(x, y) != 0,
    ensures
        t.spec_owns(seeded(mode, x, y), mode) <==> t == turn_for_region(mode, region_of(x, y)),
{
}

/// Cells outside every home region are seeded empty, and the empty occupant
/// is owned by no turn.
pub proof fn lemma_unseeded_not_owned(mode: Mode, t: Turn, x: int, y: int)
    requires
        region_of(x, y) == 0,
    ensures
        seeded(mode, x, y) == Piece::Empty,
        !t.spec_owns(seeded(mode, x, y), mode),
{
}

} // verus!
