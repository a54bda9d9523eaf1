//! What holds of the board as a whole, stated over the mathematical model
//! and proved once for all boards.

use vstd::prelude::*;
use vstd::arithmetic::div_mod::lemma_fundamental_div_mod_converse;
use crate::board::{col_offset, row_offset, Board};
use crate::cell::Cell;
use crate::rule::{count_alive, lemma_count_alive_bound, lemma_count_alive_none, next_state};
use crate::wrap::{wrap_once, wraps};

verus! {

/// One wrap step reaches the axis from exactly the coordinates that lie less
/// than one axis length before its start or after its end.
pub proof fn law_wrap_reach(v: int, n: int)
    requires
        n > 0,
    ensures
        wraps(v, n) <==> -n <= v < 2 * n,
{
}

/// Where one wrap step reaches the axis, it agrees with the remainder of the
/// coordinate modulo the axis length.  Further out it does not: the step is
/// no general remainder.
pub proof fn law_wrap_is_remainder(v: int, n: int)
    requires
        n > 0,
        wraps(v, n),
    ensures
        wrap_once(v, n) == v % n,
{
    let q: int = if v < 0 {
        -1
    } else if v >= n {
        1
    } else {
        0
    };
    lemma_fundamental_div_mod_converse(v, n, q, wrap_once(v, n));
}

/// The board wraps around on both axes.
///
/// Seen from any position, the row before the first is the last row and the
/// row after the last is the first, and likewise for the columns; a position
/// of the board itself is not moved.
pub proof fn law_wrap_around(board: Board, row: int, col: int)
    requires
        board.wf(),
        board.holds(row, col),
    ensures
        board.resolves(row, col) && board.index_of(row, col) == row * board.cols + col,
        board.resolves(-1, col) && board.index_of(-1, col) == board.index_of(board.rows - 1, col),
        board.resolves(board.rows as int, col) && board.index_of(board.rows as int, col)
            == board.index_of(0, col),
        board.resolves(row, -1) && board.index_of(row, -1) == board.index_of(row, board.cols - 1),
        board.resolves(row, board.cols as int) && board.index_of(row, board.cols as int)
            == board.index_of(row, 0),
{
}

/// On a square board both axes have the same length, so either dimension
/// names the edge of either axis: the row before the first is row
/// `cols - 1` and row `cols` is the first row, and the column before the
/// first is column `rows - 1` and column `rows` is the first column.
pub proof fn law_wrap_around_square(board: Board)
    requires
        board.wf(),
        board.cols == board.rows,
    ensures
        board.index_of(-1, 0) == board.index_of(board.cols - 1, 0),
        board.index_of(board.cols as int, 0) == board.index_of(0, 0),
        board.index_of(0, -1) == board.index_of(0, board.rows - 1),
        board.index_of(0, board.rows as int) == board.index_of(0, 0),
{
}

/// Every linear index below the number of cells names a position of the
/// board, and that position leads back to the index.
pub proof fn law_every_index_is_a_position(board: Board, i: int)
    requires
        board.wf(),
        0 <= i < board.cells.len(),
    ensures
        board.holds(board.row_of(i), board.col_of(i)),
        board.index_of(board.row_of(i), board.col_of(i)) == i,
{
    let w = board.cols as int;
    let h = board.rows as int;
    assert(0 <= i / w < h && 0 <= i % w < w && (i / w) * w + i % w == i) by (nonlinear_arith)
        requires
            0 <= i < w * h,
            w > 0,
    ;
}

/// Every position of the board has a linear index below the number of cells,
/// and that index leads back to the position.  With the law before, positions
/// and indices correspond one to one.
pub proof fn law_every_position_is_an_index(board: Board, row: int, col: int)
    requires
        board.wf(),
        board.holds(row, col),
    ensures
        0 <= board.index_of(row, col) < board.cells.len(),
        board.index_of(row, col) == row * board.cols + col,
        board.row_of(board.index_of(row, col)) == row,
        board.col_of(board.index_of(row, col)) == col,
{
    board.lemma_index_in_bounds(row, col);
}

/// The eight offsets are the Moore neighbourhood: each is one step or none
/// on either axis, none is the cell itself, no two are the same, and every
/// such offset `(dr, dc)` is among them.
pub proof fn law_offsets_are_the_moore_neighborhood(dr: int, dc: int)
    ensures
        forall|k: int|
            0 <= k < 8 ==> -1 <= #[trigger] row_offset(k) <= 1 && -1 <= col_offset(k) <= 1 && !(
            row_offset(k) == 0 && col_offset(k) == 0),
        forall|j: int, k: int|
            0 <= j < k < 8 ==> !(#[trigger] row_offset(j) == #[trigger] row_offset(k)
                && col_offset(j) == col_offset(k)),
        -1 <= dr <= 1 && -1 <= dc <= 1 && !(dr == 0 && dc == 0) ==> exists|k: int|
            0 <= k < 8 && #[trigger] row_offset(k) == dr && col_offset(k) == dc,
{
    if -1 <= dr <= 1 && -1 <= dc <= 1 && !(dr == 0 && dc == 0) {
        let k: int = if dr == 1 {
            if dc == 0 {
                0
            } else if dc == 1 {
                1
            } else {
                2
            }
        } else if dr == 0 {
            if dc == 1 {
                3
            } else {
                4
            }
        } else {
            if dc == 0 {
                5
            } else if dc == 1 {
                6
            } else {
                7
            }
        };
        assert(0 <= k < 8 && row_offset(k) == dr && col_offset(k) == dc);
    }
}

/// Every position of the board has exactly eight neighbours, in the middle
/// of the board as on its edges and in its corners: all eight coordinates
/// resolve, each to a cell of the board, and at most eight of them are
/// alive.
pub proof fn law_eight_neighbors(board: Board, row: int, col: int)
    requires
        board.wf(),
        board.holds(row, col),
    ensures
        board.neighbors_resolve(row, col),
        board.neighbors_of(row, col).len() == 8,
        forall|k: int|
            0 <= k < 8 ==> 0 <= board.index_of(row + #[trigger] row_offset(k), col + col_offset(k))
                < board.cells.len(),
        count_alive(board.neighbors_of(row, col)) <= 8,
{
    assert forall|k: int| 0 <= k < 8 implies 0 <= board.index_of(
        row + #[trigger] row_offset(k),
        col + col_offset(k),
    ) < board.cells.len() by {
        board.lemma_index_in_bounds(row + row_offset(k), col + col_offset(k));
    }
    lemma_count_alive_bound(board.neighbors_of(row, col));
}

/// Flipping a cell twice gives the cell back.
pub proof fn law_toggle_twice_is_identity(cell: Cell)
    ensures
        cell.toggled().toggled() == cell,
{
}

/// Flipping the cell at one position of the board twice gives the board
/// back.
pub proof fn law_toggle_at_twice_is_identity(board: Board, row: int, col: int)
    requires
        board.wf(),
        board.holds(row, col),
    ensures
        board.toggle_at(row, col).toggle_at(row, col) == board,
{
    board.lemma_index_in_bounds(row, col);
    assert(board.toggle_at(row, col).toggle_at(row, col).cells =~= board.cells);
}

/// The rule as a table: a cell is alive in the next generation exactly if it
/// is alive and has one, two or three living neighbours, or is dead and has
/// exactly three.
pub proof fn law_rule_table(cell: Cell, living: nat)
    ensures
        next_state(cell, living).is_alive() <==> (cell.is_alive() && 1 <= living <= 3) || (
        !cell.is_alive() && living == 3),
{
}

/// Nothing is born on a board without life: the next generation of a board
/// whose cells are all dead is that board.
pub proof fn law_dead_board_stays_dead(board: Board)
    requires
        board.wf(),
        forall|i: int| 0 <= i < board.cells.len() ==> !board.cells[i].is_alive(),
    ensures
        board.step() == board,
{
    assert forall|i: int| 0 <= i < board.cells.len() implies board.next_cell(i)
        == board.cells[i] by {
        let row = board.row_of(i);
        let col = board.col_of(i);
        law_every_index_is_a_position(board, i);
        law_eight_neighbors(board, row, col);
        lemma_count_alive_none(board.neighbors_of(row, col));
    }
    assert(board.step().cells =~= board.cells);
}

/// The next generation has the dimensions of this one and as many cells.
pub proof fn law_step_keeps_dimensions(board: Board)
    requires
        board.wf(),
    ensures
        board.step().wf(),
        board.step().cols == board.cols,
        board.step().rows == board.rows,
{
}

/// A two-phase step does not depend on the order of its scan.
///
/// Whatever order the scan visits the cells in, and however often it visits
/// one, as long as it visits every cell: drawing up both schedules against
/// the board as it is and committing them afterwards gives the next
/// generation, in which every cell has been judged against the neighbours of
/// the present generation.
pub proof fn law_scan_order_is_immaterial(board: Board, order: Seq<int>)
    requires
        board.visits_all(order),
    ensures
        board.two_phase(order) == board.step(),
{
    assert forall|i: int| 0 <= i < board.cells.len() implies board.two_phase(order).cells[i]
        == board.next_cell(i) by {
        board.lemma_scan_schedules(order, i);
        assert(order.contains(i));
    }
    assert(board.two_phase(order).cells =~= board.step().cells);
}

/// Two scans that both visit every cell lead to the same board.
pub proof fn law_two_scans_agree(board: Board, first: Seq<int>, second: Seq<int>)
    requires
        board.visits_all(first),
        board.visits_all(second),
    ensures
        board.two_phase(first) == board.two_phase(second),
{
    law_scan_order_is_immaterial(board, first);
    law_scan_order_is_immaterial(board, second);
}

} // verus!
