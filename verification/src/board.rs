use vstd::prelude::*;
use vstd::arithmetic::div_mod::lemma_fundamental_div_mod_converse;
use crate::cell::Cell;
use crate::rule::{count_alive, dies, is_born, next_state};
use crate::wrap::{wrap_once, wraps};

verus! {

/// The row offset of the `k`-th neighbour, for `k` in `0..8`.
///
/// Together with [`col_offset`] this lists the Moore neighbourhood in the
/// order in which neighbours are returned: the three cells of the next row,
/// the two beside the cell, the three of the previous row.
pub open spec fn row_offset(k: int) -> int {
    if k < 3 {
        1
    } else if k < 5 {
        0
    } else {
        -1
    }
}

/// The column offset of the `k`-th neighbour, for `k` in `0..8`.
pub open spec fn col_offset(k: int) -> int {
    if k == 0 || k == 5 {
        0
    } else if k == 1 || k == 3 || k == 6 {
        1
    } else {
        -1
    }
}

/// The mathematical board that a grid stands for: its two dimensions and its
/// cells in row-major order.
pub struct Board {
    pub cols: nat,
    pub rows: nat,
    pub cells: Seq<Cell>,
}

impl Board {
    /// Both dimensions are positive and there is one cell per position.
    pub open spec fn wf(self) -> bool {
        &&& self.cols > 0
        &&& self.rows > 0
        &&& self.cells.len() == self.cols * self.rows
    }

    /// Whether `(row, col)` is a position of the board, without wrapping.
    pub open spec fn holds(self, row: int, col: int) -> bool {
        0 <= row < self.rows && 0 <= col < self.cols
    }

    /// Whether one wrap step on each axis brings `(row, col)` onto the board.
    pub open spec fn resolves(self, row: int, col: int) -> bool {
        wraps(row, self.rows as int) && wraps(col, self.cols as int)
    }

    /// The linear index of the cell that `(row, col)` wraps to.
    pub open spec fn index_of(self, row: int, col: int) -> int {
        wrap_once(row, self.rows as int) * self.cols + wrap_once(col, self.cols as int)
    }

    /// The row of the cell with linear index `i`.
    pub open spec fn row_of(self, i: int) -> int {
        i / (self.cols as int)
    }

    /// The column of the cell with linear index `i`.
    pub open spec fn col_of(self, i: int) -> int {
        i % (self.cols as int)
    }

    /// The cell that `(row, col)` wraps to.
    pub open spec fn at(self, row: int, col: int) -> Cell {
        self.cells[self.index_of(row, col)]
    }

    /// Whether all eight neighbours of `(row, col)` can be resolved.
    pub open spec fn neighbors_resolve(self, row: int, col: int) -> bool {
        forall|k: int|
            0 <= k < 8 ==> self.resolves(row + #[trigger] row_offset(k), col + col_offset(k))
    }

    /// The eight neighbours of `(row, col)` on the torus, in offset order.
    pub open spec fn neighbors_of(self, row: int, col: int) -> Seq<Cell> {
        Seq::new(8, |k: int| self.at(row + row_offset(k), col + col_offset(k)))
    }

    /// How many of the eight neighbours of the cell with index `i` are alive.
    pub open spec fn living_neighbors(self, i: int) -> nat {
        count_alive(self.neighbors_of(self.row_of(i), self.col_of(i)))
    }

    /// Whether the rule schedules the cell with index `i` to die.
    pub open spec fn scheduled_to_die(self, i: int) -> bool {
        dies(self.cells[i], self.living_neighbors(i))
    }

    /// Whether the rule schedules the cell with index `i` to come to life.
    pub open spec fn scheduled_to_live(self, i: int) -> bool {
        is_born(self.cells[i], self.living_neighbors(i))
    }

    /// The cell with index `i` in the next generation.
    pub open spec fn next_cell(self, i: int) -> Cell {
        next_state(self.cells[i], self.living_neighbors(i))
    }

    /// The next generation: every cell judged by the rule against the
    /// neighbours it has on this board.
    pub open spec fn step(self) -> Board {
        Board {
            cols: self.cols,
            rows: self.rows,
            cells: Seq::new(self.cells.len(), |i: int| self.next_cell(i)),
        }
    }

    /// The board with the cell at the position `(row, col)` flipped.
    pub open spec fn toggle_at(self, row: int, col: int) -> Board {
        Board {
            cols: self.cols,
            rows: self.rows,
            cells: self.cells.update(
                row * self.cols + col,
                self.cells[row * self.cols + col].toggled(),
            ),
        }
    }

    /// The board with every cell dead whose index is among `targets`.
    pub open spec fn kill_all(self, targets: Seq<int>) -> Board {
        Board {
            cols: self.cols,
            rows: self.rows,
            cells: Seq::new(
                self.cells.len(),
                |i: int|
                    if targets.contains(i) {
                        Cell::lifeless()
                    } else {
                        self.cells[i]
                    },
            ),
        }
    }

    /// The board with every cell alive whose index is among `targets`.
    pub open spec fn revive_all(self, targets: Seq<int>) -> Board {
        Board {
            cols: self.cols,
            rows: self.rows,
            cells: Seq::new(
                self.cells.len(),
                |i: int|
                    if targets.contains(i) {
                        Cell::living()
                    } else {
                        self.cells[i]
                    },
            ),
        }
    }

    /// The commit phase of a step: all scheduled deaths, then all scheduled
    /// births.
    pub open spec fn commit(self, to_die: Seq<int>, to_live: Seq<int>) -> Board {
        self.kill_all(to_die).revive_all(to_live)
    }

    /// The deaths that a scan schedules which visits the cells in `order`.
    pub open spec fn deaths(self, order: Seq<int>) -> Seq<int> {
        order.filter(|i: int| self.scheduled_to_die(i))
    }

    /// The births that a scan schedules which visits the cells in `order`.
    pub open spec fn births(self, order: Seq<int>) -> Seq<int> {
        order.filter(|i: int| self.scheduled_to_live(i))
    }

    /// A whole two-phase step whose scan visits the cells in `order`: both
    /// schedules are drawn up against this board, then committed.
    pub open spec fn two_phase(self, order: Seq<int>) -> Board {
        self.commit(self.deaths(order), self.births(order))
    }

    /// Whether a scan in `order` visits every cell of the board.
    pub open spec fn visits_all(self, order: Seq<int>) -> bool {
        forall|i: int| 0 <= i < self.cells.len() ==> order.contains(i)
    }

    /// The order that visits the first `n` cells by rising index.
    pub open spec fn rising(n: nat) -> Seq<int> {
        Seq::new(n, |i: int| i)
    }

    /// A coordinate that resolves names a cell of the board.
    pub proof fn lemma_index_in_bounds(self, row: int, col: int)
        requires
            self.wf(),
            self.resolves(row, col),
        ensures
            0 <= self.index_of(row, col) < self.cells.len(),
            self.row_of(self.index_of(row, col)) == wrap_once(row, self.rows as int),
            self.col_of(self.index_of(row, col)) == wrap_once(col, self.cols as int),
    {
        let r = wrap_once(row, self.rows as int);
        let c = wrap_once(col, self.cols as int);
        let w = self.cols as int;
        let h = self.rows as int;
        assert(0 <= r * w + c < w * h) by (nonlinear_arith)
            requires
                0 <= r < h,
                0 <= c < w,
        ;
        lemma_fundamental_div_mod_converse(r * w + c, w, r, c);
    }

    /// Killing no cell leaves the board as it is, and so does reviving none.
    pub proof fn lemma_commit_nothing(self)
        ensures
            self.kill_all(Seq::empty()) == self,
            self.revive_all(Seq::empty()) == self,
    {
        assert(self.kill_all(Seq::empty()).cells =~= self.cells);
        assert(self.revive_all(Seq::empty()).cells =~= self.cells);
    }

    /// Killing the cells of `targets` and then the cell `i` kills the cells of
    /// `targets` with `i` added.
    pub proof fn lemma_kill_one_more(self, targets: Seq<int>, i: int)
        requires
            0 <= i < self.cells.len(),
        ensures
            self.kill_all(targets.push(i)).cols == self.cols,
            self.kill_all(targets.push(i)).rows == self.rows,
            self.kill_all(targets.push(i)).cells == self.kill_all(targets).cells.update(
                i,
                Cell::lifeless(),
            ),
    {
        let more = targets.push(i);
        assert(more[targets.len() as int] == i);
        assert forall|j: int| 0 <= j < self.cells.len() implies (more.contains(j) <==> (
        targets.contains(j) || j == i)) by {
            if targets.contains(j) {
                let at = choose|at: int| 0 <= at < targets.len() && targets[at] == j;
                assert(more[at] == j);
            }
        }
        assert(self.kill_all(more).cells =~= self.kill_all(targets).cells.update(
            i,
            Cell::lifeless(),
        ));
    }

    /// Reviving the cells of `targets` and then the cell `i` revives the cells
    /// of `targets` with `i` added.
    pub proof fn lemma_revive_one_more(self, targets: Seq<int>, i: int)
        requires
            0 <= i < self.cells.len(),
        ensures
            self.revive_all(targets.push(i)).cols == self.cols,
            self.revive_all(targets.push(i)).rows == self.rows,
            self.revive_all(targets.push(i)).cells == self.revive_all(targets).cells.update(
                i,
                Cell::living(),
            ),
    {
        let more = targets.push(i);
        assert(more[targets.len() as int] == i);
        assert forall|j: int| 0 <= j < self.cells.len() implies (more.contains(j) <==> (
        targets.contains(j) || j == i)) by {
            if targets.contains(j) {
                let at = choose|at: int| 0 <= at < targets.len() && targets[at] == j;
                assert(more[at] == j);
            }
        }
        assert(self.revive_all(more).cells =~= self.revive_all(targets).cells.update(
            i,
            Cell::living(),
        ));
    }

    /// A scan that visits one more cell schedules what it had scheduled, and
    /// that cell too if the rule says so.
    pub proof fn lemma_scan_one_more(self, order: Seq<int>, i: int)
        ensures
            self.deaths(order.push(i)) == (if self.scheduled_to_die(i) {
                self.deaths(order).push(i)
            } else {
                self.deaths(order)
            }),
            self.births(order.push(i)) == (if self.scheduled_to_live(i) {
                self.births(order).push(i)
            } else {
                self.births(order)
            }),
    {
        reveal(Seq::filter);
        assert(order.push(i).drop_last() =~= order);
    }

    /// A scan schedules exactly those of the cells it visits that the rule
    /// condemns, and exactly those that the rule brings to life.
    pub proof fn lemma_scan_schedules(self, order: Seq<int>, i: int)
        ensures
            self.deaths(order).contains(i) <==> order.contains(i) && self.scheduled_to_die(i),
            self.births(order).contains(i) <==> order.contains(i) && self.scheduled_to_live(i),
    {
        let die = |i: int| self.scheduled_to_die(i);
        let live = |i: int| self.scheduled_to_live(i);
        if order.contains(i) {
            let at = choose|at: int| 0 <= at < order.len() && order[at] == i;
            if die(i) {
                order.lemma_filter_contains(die, at);
            }
            if live(i) {
                order.lemma_filter_contains(live, at);
            }
        }
        if order.filter(die).contains(i) {
            let at = choose|at: int| 0 <= at < order.filter(die).len() && order.filter(die)[at] == i;
            order.lemma_filter_pred(die, at);
            order.lemma_filter_contains_rev(die, i);
        }
        if order.filter(live).contains(i) {
            let at = choose|at: int|
                0 <= at < order.filter(live).len() && order.filter(live)[at] == i;
            order.lemma_filter_pred(live, at);
            order.lemma_filter_contains_rev(live, i);
        }
    }

    /// All eight neighbours of a position of the board resolve.
    pub proof fn lemma_neighbors_resolve(self, row: int, col: int)
        requires
            self.wf(),
            self.holds(row, col),
        ensures
            self.neighbors_resolve(row, col),
    {
    }
}

} // verus!
