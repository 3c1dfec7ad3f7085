//! The board: its size, its cells, and their row-by-row enumeration.

use crate::direction::Direction;
use std::collections::VecDeque;
use vstd::prelude::*;

verus! {

/// Number of columns of the board.
pub const GAME_WIDTH: i32 = 20;

/// Number of rows of the board.
pub const GAME_HEIGHT: i32 = 20;

/// Number of cells of the board.
pub const GRID_CELLS: i32 = GAME_WIDTH * GAME_HEIGHT;

/// A position, on the board or off it. Column `x` grows to the right,
/// row `y` grows downwards.
#[derive(Clone, Copy, Debug, PartialEq, Eq, Structural)]
pub struct Cell {
    pub x: i32,
    pub y: i32,
}

impl Cell {
    /// Whether the cell lies on the board.
    pub open spec fn spec_in_grid(self) -> bool {
        0 <= self.x < GAME_WIDTH && 0 <= self.y < GAME_HEIGHT
    }

    /// The cell one move away in the given heading; the cell itself for
    /// `Straight`. Meaningful while the result fits the coordinate type,
    /// as it does next to any cell of the board.
    pub open spec fn spec_neighbour(self, heading: Direction) -> Cell {
        Cell { x: (self.x + heading.dx()) as i32, y: (self.y + heading.dy()) as i32 }
    }

    #[verifier::when_used_as_spec(spec_in_grid)]
    pub fn in_grid(self) -> (r: bool)
        ensures
            r == self.spec_in_grid(),
    {
        0 <= self.x && self.x < GAME_WIDTH && 0 <= self.y && self.y < GAME_HEIGHT
    }

    #[verifier::when_used_as_spec(spec_neighbour)]
    pub fn neighbour(self, heading: Direction) -> (r: Cell)
        requires
            i32::MIN < self.x < i32::MAX,
            i32::MIN < self.y < i32::MAX,
        ensures
            r == self.spec_neighbour(heading),
            r.x == self.x + heading.dx(),
            r.y == self.y + heading.dy(),
    {
        match heading {
            Direction::Left => Cell { x: self.x - 1, y: self.y },
            Direction::Right => Cell { x: self.x + 1, y: self.y },
            Direction::Up => Cell { x: self.x, y: self.y - 1 },
            Direction::Down => Cell { x: self.x, y: self.y + 1 },
            Direction::Straight => self,
        }
    }
}

/// The `k`-th cell of the board, counting row by row from the top left.
pub open spec fn nth_cell(k: int) -> Cell {
    Cell { x: (k % (GAME_WIDTH as int)) as i32, y: (k / (GAME_WIDTH as int)) as i32 }
}

/// The place of a cell of the board in the row-by-row count.
pub open spec fn index_of(c: Cell) -> int {
    c.y * GAME_WIDTH + c.x
}

/// The `k`-th cell of the board, computed.
pub fn cell_at(k: i32) -> (c: Cell)
    requires
        0 <= k < GRID_CELLS,
    ensures
        c == nth_cell(k as int),
        c.in_grid(),
        index_of(c) == k,
{
    Cell { x: k % GAME_WIDTH, y: k / GAME_WIDTH }
}

/// The count and the cells of the board correspond one to one.
pub proof fn lemma_cell_index(c: Cell)
    requires
        c.in_grid(),
    ensures
        0 <= index_of(c) < GRID_CELLS,
        nth_cell(index_of(c)) == c,
{
}

/// Every index below the number of cells names a cell of the board, and
/// that cell has this index again.
pub proof fn lemma_index_cell(k: int)
    requires
        0 <= k < GRID_CELLS,
    ensures
        nth_cell(k).in_grid(),
        index_of(nth_cell(k)) == k,
{
}

/// Whether `cell` is one of `segments`.
pub fn contains_cell(segments: &VecDeque<Cell>, cell: &Cell) -> (found: bool)
    ensures
        found == segments@.contains(*cell),
{
    let n = segments.len();
    let mut i: usize = 0;
    while i < n
        invariant
            n == segments@.len(),
            0 <= i <= n,
            forall|j: int| 0 <= j < i ==> segments@[j] != *cell,
        decreases n - i,
    {
        if segments[i] == *cell {
            return true;
        }
        i += 1;
    }
    false
}

/// Whether every one of `segments` lies on the board.
pub fn all_in_grid(segments: &VecDeque<Cell>) -> (ok: bool)
    ensures
        ok == (forall|j: int| 0 <= j < segments@.len() ==> (#[trigger] segments@[j]).in_grid()),
{
    let n = segments.len();
    let mut i: usize = 0;
    while i < n
        invariant
            n == segments@.len(),
            0 <= i <= n,
            forall|j: int| 0 <= j < i ==> (#[trigger] segments@[j]).in_grid(),
        decreases n - i,
    {
        if !segments[i].in_grid() {
            return false;
        }
        i += 1;
    }
    true
}

} // verus!
