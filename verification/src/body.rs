//! Questions about a list of cells: is a cell on it, is the board full,
//! where is there room for an apple.

use crate::grid::{Position, TILES_H, TILES_W};
use vstd::prelude::*;
use vstd::seq_lib::seq_to_set_is_finite;
use vstd::set_lib::{
    lemma_int_range, lemma_len_subset, lemma_map_size, lemma_subset_equality, set_int_range,
};

verus! {

/// Number of cells of the board.
pub const BOARD_CELLS: usize = 361;

/// Every cell of the board is on the list.
pub open spec fn covers_board(cells: Seq<Position>) -> bool {
    forall|p: Position| p.in_bounds() ==> #[trigger] cells.contains(p)
}

/// Every entry of the list is a cell of the board.
pub open spec fn all_in_bounds(cells: Seq<Position>) -> bool {
    forall|i: int| 0 <= i < cells.len() ==> (#[trigger] cells[i]).in_bounds()
}

/// `a` comes before `b` when the board is read row by row from the top,
/// each row from the left.
pub open spec fn reads_before(a: Position, b: Position) -> bool {
    a.y < b.y || (a.y == b.y && a.x < b.x)
}

/// `cell` is a cell of the board that is not on the list, and the first
/// such cell in reading order.
pub open spec fn is_first_free(cells: Seq<Position>, cell: Position) -> bool {
    &&& cell.in_bounds()
    &&& !cells.contains(cell)
    &&& forall|q: Position| q.in_bounds() && reads_before(q, cell) ==> #[trigger] cells.contains(q)
}

/// The first cell of the board, in reading order, that is not on the list.
/// It says nothing of a list that covers the board.
pub open spec fn first_free(cells: Seq<Position>) -> Position {
    choose|cell: Position| is_first_free(cells, cell)
}

/// A list has at most one first free cell, and has one unless it covers
/// the board.
pub proof fn lemma_first_free_unique(cells: Seq<Position>, cell: Position)
    requires
        is_first_free(cells, cell),
    ensures
        first_free(cells) == cell,
        !covers_board(cells),
{
    let other = first_free(cells);
    assert(is_first_free(cells, other));
}

/// The place of a cell when the board is read row by row.
pub open spec fn rank(cell: Position) -> int {
    cell.y * TILES_W + cell.x
}

/// A list of cells of the board without repeats is no longer than the board
/// has cells, and covers the board exactly when it is that long.
pub proof fn lemma_board_capacity(cells: Seq<Position>)
    requires
        all_in_bounds(cells),
        cells.no_duplicates(),
    ensures
        BOARD_CELLS == TILES_W * TILES_H,
        cells.len() <= BOARD_CELLS,
        covers_board(cells) <==> cells.len() == BOARD_CELLS,
{
    let place = |cell: Position| rank(cell);
    let listed = cells.to_set();
    let places = listed.map(place);
    let board = set_int_range(0, BOARD_CELLS as int);
    seq_to_set_is_finite(cells);
    cells.unique_seq_to_set();
    lemma_int_range(0, BOARD_CELLS as int);
    assert forall|cell: Position| listed.contains(cell) implies cell.in_bounds() by {
        let i = choose|i: int| 0 <= i < cells.len() && cells[i] == cell;
        assert(cells[i].in_bounds());
    }
    lemma_map_size(listed, places, place);
    assert forall|i: int| places.contains(i) implies board.contains(i) by {
        let cell = choose|cell: Position| listed.contains(cell) && i == place(cell);
        assert(cell.in_bounds());
    }
    lemma_len_subset(places, board);
    if covers_board(cells) {
        assert forall|i: int| board.contains(i) implies places.contains(i) by {
            let cell = Position { x: (i % TILES_W as int) as i32, y: (i / TILES_W as int) as i32 };
            assert(cell.in_bounds());
            assert(cells.contains(cell));
            assert(listed.contains(cell) && i == place(cell));
        }
        assert(places =~= board);
    }
    if cells.len() == BOARD_CELLS {
        lemma_subset_equality(places, board);
        assert forall|cell: Position| cell.in_bounds() implies cells.contains(cell) by {
            assert(board.contains(rank(cell)));
            let other = choose|other: Position| listed.contains(other) && rank(cell) == place(other);
            assert(other.in_bounds());
            assert(other == cell);
        }
    }
}

/// Whether `cell` is on the list.
pub fn contains(cells: &Vec<Position>, cell: Position) -> (found: bool)
    ensures
        found == cells@.contains(cell),
{
    let mut i: usize = 0;
    while i < cells.len()
        invariant
            i <= cells.len(),
            forall|j: int| 0 <= j < i ==> cells@[j] != cell,
        decreases cells.len() - i,
    {
        if cells[i] == cell {
            return true;
        }
        i += 1;
    }
    false
}

/// Whether every entry of the list is a cell of the board.
pub fn on_board(cells: &Vec<Position>) -> (all: bool)
    ensures
        all == all_in_bounds(cells@),
{
    let mut i: usize = 0;
    while i < cells.len()
        invariant
            i <= cells.len(),
            forall|j: int| 0 <= j < i ==> (#[trigger] cells@[j]).in_bounds(),
        decreases cells.len() - i,
    {
        if !cells[i].is_in_bounds() {
            return false;
        }
        i += 1;
    }
    true
}

/// Whether no cell occurs twice on the list.
pub fn all_distinct(cells: &Vec<Position>) -> (distinct: bool)
    ensures
        distinct == cells@.no_duplicates(),
{
    let mut i: usize = 0;
    while i < cells.len()
        invariant
            i <= cells.len(),
            forall|a: int, b: int| 0 <= a < b < i ==> cells@[a] != cells@[b],
        decreases cells.len() - i,
    {
        let mut j: usize = 0;
        while j < i
            invariant
                j <= i < cells.len(),
                forall|a: int| 0 <= a < j ==> cells@[a] != cells@[i as int],
            decreases i - j,
        {
            if cells[j] == cells[i] {
                return false;
            }
            j += 1;
        }
        i += 1;
    }
    true
}

/// The first cell of the board, in reading order, that is not on the list;
/// `None` when the list covers the board.
pub fn first_free_cell(cells: &Vec<Position>) -> (free: Option<Position>)
    ensures
        free.is_none() <==> covers_board(cells@),
        free matches Some(cell) ==> is_first_free(cells@, cell) && cell == first_free(cells@),
{
    let mut y: i32 = 0;
    while y < TILES_H
        invariant
            0 <= y <= TILES_H,
            forall|q: Position| q.in_bounds() && q.y < y ==> #[trigger] cells@.contains(q),
        decreases TILES_H - y,
    {
        let mut x: i32 = 0;
        while x < TILES_W
            invariant
                0 <= y < TILES_H,
                0 <= x <= TILES_W,
                forall|q: Position| q.in_bounds() && q.y < y ==> #[trigger] cells@.contains(q),
                forall|q: Position|
                    q.in_bounds() && q.y == y && q.x < x ==> #[trigger] cells@.contains(q),
            decreases TILES_W - x,
        {
            let cell = Position { x, y };
            if !contains(cells, cell) {
                proof {
                    lemma_first_free_unique(cells@, cell);
                }
                return Some(cell);
            }
            x += 1;
        }
        y += 1;
    }
    None
}

} // verus!
