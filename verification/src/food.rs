//! Where food may go, and how a place for it is chosen.

use crate::grid::{
    cell_at, contains_cell, index_of, lemma_cell_index, lemma_index_cell, nth_cell, Cell,
    GAME_HEIGHT, GAME_WIDTH, GRID_CELLS,
};
use rand::Rng;
use std::collections::VecDeque;
use vstd::prelude::*;

verus! {

/// How many random draws `put_food` makes before it stops drawing and
/// takes the first vacant cell of the board instead.
pub const MAX_DRAWS: u32 = 4096;

/// A cell is vacant when it lies on the board and the snake, head and
/// body, is nowhere on it.
pub open spec fn vacant(cell: Cell, head: Cell, body: Seq<Cell>) -> bool {
    cell.in_grid() && cell != head && !body.contains(cell)
}

/// Whether the snake leaves any cell of the board vacant.
pub open spec fn has_vacancy(head: Cell, body: Seq<Cell>) -> bool {
    exists|cell: Cell| #[trigger] vacant(cell, head, body)
}

/// Whether `cell` is vacant, computed.
pub fn is_vacant(cell: &Cell, head: &Cell, segments: &VecDeque<Cell>) -> (r: bool)
    ensures
        r == vacant(*cell, *head, segments@),
{
    cell.in_grid() && !(*cell == *head) && !contains_cell(segments, cell)
}

/// A sequence that holds each of the first `m` cells of the board has at
/// least `m` items.
proof fn lemma_cover_is_long(cells: Seq<Cell>, m: int)
    requires
        0 <= m <= GRID_CELLS,
        forall|k: int| 0 <= k < m ==> cells.contains(#[trigger] nth_cell(k)),
    ensures
        cells.len() >= m,
    decreases m,
{
    if m > 0 {
        let last = nth_cell(m - 1);
        assert(cells.contains(last));
        let at = choose|i: int| 0 <= i < cells.len() && cells[i] == last;
        let rest = cells.remove(at);
        assert forall|k: int| 0 <= k < m - 1 implies rest.contains(#[trigger] nth_cell(k)) by {
            let c = nth_cell(k);
            lemma_index_cell(k);
            lemma_index_cell(m - 1);
            assert(c != last);
            assert(cells.contains(c));
            let i = choose|i: int| 0 <= i < cells.len() && cells[i] == c;
            if i < at {
                assert(rest[i] == c);
            } else {
                assert(rest[i - 1] == c);
            }
        }
        lemma_cover_is_long(rest, m - 1);
    }
}

/// A snake with fewer cells than the board leaves a cell vacant,
/// wherever it lies.
pub proof fn lemma_short_snake_leaves_vacancy(head: Cell, body: Seq<Cell>)
    requires
        body.len() + 1 < GRID_CELLS,
    ensures
        has_vacancy(head, body),
{
    if !has_vacancy(head, body) {
        let snake = seq![head] + body;
        assert forall|k: int| 0 <= k < GRID_CELLS implies snake.contains(#[trigger] nth_cell(k)) by {
            let c = nth_cell(k);
            lemma_index_cell(k);
            assert(!vacant(c, head, body));
            if c == head {
                assert(snake[0] == c);
            } else {
                let i = choose|i: int| 0 <= i < body.len() && body[i] == c;
                assert(snake[i + 1] == c);
            }
        }
        lemma_cover_is_long(snake, GRID_CELLS as int);
    }
}

/// One draw from `rand::Rng::gen_range(low, high)` on the generator that
/// `rand::thread_rng` keeps for the calling thread. The generator returns
/// a value of the half-open range from `low` to `high`, and which one
/// differs from call to call; it panics on an empty range, which the
/// precondition leaves out.
#[verifier::external_body]
fn random_in(low: i32, high: i32) -> (r: i32)
    requires
        low < high,
    ensures
        low <= r < high,
{
    rand::thread_rng().gen_range(low, high)
}

/// The first vacant cell of the board, row by row from the top left.
pub fn first_vacant_cell(head: &Cell, segments: &VecDeque<Cell>) -> (cell: Cell)
    requires
        has_vacancy(*head, segments@),
    ensures
        vacant(cell, *head, segments@),
        forall|k: int| 0 <= k < index_of(cell) ==> !vacant(#[trigger] nth_cell(k), *head, segments@),
{
    let mut k: i32 = 0;
    loop
        invariant
            0 <= k < GRID_CELLS,
            has_vacancy(*head, segments@),
            forall|j: int| 0 <= j < k ==> !vacant(#[trigger] nth_cell(j), *head, segments@),
        decreases GRID_CELLS - k,
    {
        let cell = cell_at(k);
        if is_vacant(&cell, head, segments) {
            return cell;
        }
        proof {
            if k + 1 == GRID_CELLS {
                let free = choose|c: Cell| #[trigger] vacant(c, *head, segments@);
                lemma_cell_index(free);
                assert(!vacant(nth_cell(index_of(free)), *head, segments@));
            }
        }
        k += 1;
    }
}

/// Chooses the cell for new food: a vacant one, drawn at random.
///
/// Columns and rows are drawn uniformly over the board and a draw that
/// hits the snake is thrown away. After `MAX_DRAWS` such misses the first
/// vacant cell is taken, so the call always returns. The board must have
/// a vacant cell.
pub fn put_food(head: &Cell, segments: &VecDeque<Cell>) -> (food: Cell)
    requires
        has_vacancy(*head, segments@),
    ensures
        vacant(food, *head, segments@),
{
    let mut misses: u32 = 0;
    while misses < MAX_DRAWS
        invariant
            misses <= MAX_DRAWS,
        decreases MAX_DRAWS - misses,
    {
        let candidate = Cell { x: random_in(0, GAME_WIDTH), y: random_in(0, GAME_HEIGHT) };
        if is_vacant(&candidate, head, segments) {
            return candidate;
        }
        misses += 1;
    }
    first_vacant_cell(head, segments)
}

} // verus!
