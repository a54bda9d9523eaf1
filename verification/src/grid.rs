use vstd::prelude::*;
use vstd::pervasive::unreached;
use crate::board::{col_offset, row_offset, Board};
use crate::cell::{alive_flags, Cell};
use crate::coin::{CoinSource, ThreadCoin};
use crate::error::GridError;
use crate::laws::law_scan_order_is_immaterial;
use crate::rule::{alone, can_spawn, overpopulated};
use crate::wrap::wrap;

verus! {

/// The indices of a schedule as mathematical integers.
spec fn as_ints(schedule: Seq<usize>) -> Seq<int> {
    schedule.map_values(|i: usize| i as int)
}

/// A toroidal grid of cells: a fixed number of columns and rows, and one cell
/// per position, kept in one row-major vector.
///
/// The dimensions are positive and the vector holds `cols * rows` cells for
/// as long as the grid lives; no operation can break that.
#[derive(Debug, PartialEq, Eq)]
pub struct Grid {
    cols: usize,
    rows: usize,
    cells: Vec<Cell>,
}

impl View for Grid {
    type V = Board;

    closed spec fn view(&self) -> Board {
        Board { cols: self.cols as nat, rows: self.rows as nat, cells: self.cells@ }
    }
}

impl Clone for Grid {
    /// A grid of its own with the same dimensions and the same cells.
    fn clone(&self) -> (copy: Grid)
        ensures
            copy@ == self@,
    {
        proof {
            use_type_invariant(self);
        }
        let cells: Vec<Cell> = self.cells.clone();
        Grid { cols: self.cols, rows: self.rows, cells }
    }
}

impl Grid {
    #[verifier::type_invariant]
    spec fn inv(self) -> bool {
        self@.wf()
    }

    /// The grid of the given dimensions that holds exactly `cells`, in
    /// row-major order.
    ///
    /// Refused with `InvalidDimensions` if a dimension is zero or the number
    /// of cells is not `cols * rows`.
    pub fn from_cells(cols: usize, rows: usize, cells: Vec<Cell>) -> (res: Result<Grid, GridError>)
        ensures
            match res {
                Ok(grid) => {
                    &&& cols > 0 && rows > 0 && cells@.len() == cols * rows
                    &&& grid@ == (Board { cols: cols as nat, rows: rows as nat, cells: cells@ })
                },
                Err(e) => {
                    &&& e == GridError::InvalidDimensions
                    &&& !(cols > 0 && rows > 0 && cells@.len() == cols * rows)
                },
            },
    {
        let len: usize = cells.len();
        if cols == 0 || rows == 0 {
            return Err(GridError::InvalidDimensions);
        }
        match cols.checked_mul(rows) {
            Some(count) => {
                if len == count {
                    Ok(Grid { cols, rows, cells })
                } else {
                    Err(GridError::InvalidDimensions)
                }
            },
            None => Err(GridError::InvalidDimensions),
        }
    }

    /// A grid of the given dimensions whose cells are drawn from `source`:
    /// one flip per cell, in row-major order, alive on heads.
    ///
    /// Refused with `InvalidDimensions` exactly if a dimension is zero, and
    /// then no flip is drawn.  The number of cells has to fit the machine's
    /// address range.
    pub fn with_source<S: CoinSource>(cols: usize, rows: usize, source: &mut S) -> (res: Result<
        Grid,
        GridError,
    >)
        requires
            cols * rows <= usize::MAX,
        ensures
            match res {
                Ok(grid) => {
                    &&& cols > 0 && rows > 0
                    &&& grid@.wf()
                    &&& grid@.cols == cols && grid@.rows == rows
                    &&& grid@.cells.len() == cols * rows
                    &&& final(source).flips() == old(source).flips() + alive_flags(grid@.cells)
                },
                Err(e) => {
                    &&& e == GridError::InvalidDimensions && (cols == 0 || rows == 0)
                    &&& final(source).flips() == old(source).flips()
                },
            },
    {
        if cols == 0 || rows == 0 {
            return Err(GridError::InvalidDimensions);
        }
        let count: usize = cols * rows;
        let mut cells: Vec<Cell> = Vec::new();
        let mut i: usize = 0;
        while i < count
            invariant
                i <= count,
                cells@.len() == i,
                source.flips() == old(source).flips() + alive_flags(cells@),
            decreases count - i,
        {
            let ghost drawn = cells@;
            let cell = Cell::new_random(source);
            cells.push(cell);
            proof {
                assert(alive_flags(drawn.push(cell)) =~= alive_flags(drawn).push(cell.is_alive()));
                assert((old(source).flips() + alive_flags(drawn)).push(cell.is_alive()) =~= old(
                    source,
                ).flips() + alive_flags(drawn).push(cell.is_alive()));
            }
            i = i + 1;
        }
        Grid::from_cells(cols, rows, cells)
    }

    /// A grid of the given dimensions in which every cell is alive with
    /// probability one half, independently of the others.
    ///
    /// Refused with `InvalidDimensions` exactly if a dimension is zero.  The
    /// number of cells has to fit the machine's address range.
    pub fn new(cols: usize, rows: usize) -> (res: Result<Grid, GridError>)
        requires
            cols * rows <= usize::MAX,
        ensures
            match res {
                Ok(grid) => {
                    &&& cols > 0 && rows > 0
                    &&& grid@.wf()
                    &&& grid@.cols == cols && grid@.rows == rows
                    &&& grid@.cells.len() == cols * rows
                },
                Err(e) => e == GridError::InvalidDimensions && (cols == 0 || rows == 0),
            },
    {
        let mut coin = ThreadCoin::new();
        Grid::with_source(cols, rows, &mut coin)
    }

    /// The number of columns.
    pub fn cols(&self) -> (cols: usize)
        ensures
            cols == self@.cols,
            self@.wf(),
    {
        proof {
            use_type_invariant(self);
        }
        self.cols
    }

    /// The number of rows.
    pub fn rows(&self) -> (rows: usize)
        ensures
            rows == self@.rows,
            self@.wf(),
    {
        proof {
            use_type_invariant(self);
        }
        self.rows
    }

    /// The linear index that the coordinate `(row, col)` wraps to, for
    /// coordinates of any width.
    fn locate(&self, row: i128, col: i128) -> (res: Result<usize, GridError>)
        ensures
            match res {
                Ok(i) => self@.resolves(row as int, col as int) && i == self@.index_of(
                    row as int,
                    col as int,
                ),
                Err(e) => e == GridError::IndexOutOfRange && !self@.resolves(
                    row as int,
                    col as int,
                ),
            },
    {
        proof {
            use_type_invariant(self);
        }
        let r: usize = match wrap(row, self.rows) {
            Ok(r) => r,
            Err(e) => {
                return Err(e);
            },
        };
        let c: usize = match wrap(col, self.cols) {
            Ok(c) => c,
            Err(e) => {
                return Err(e);
            },
        };
        proof {
            self@.lemma_index_in_bounds(row as int, col as int);
            assert(self.cells@.len() == self.cells.len());
            assert(r * self.cols >= 0) by (nonlinear_arith)
                requires
                    r >= 0,
                    self.cols >= 0,
            ;
        }
        Ok(r * self.cols + c)
    }

    /// Maps a coordinate that may lie up to one full dimension outside the
    /// grid to the linear index of the cell it wraps to, each axis wrapped
    /// on its own.
    ///
    /// Refused with `IndexOutOfRange` exactly if one wrap step leaves either
    /// axis outside the grid.
    pub fn index_of(&self, row: isize, col: isize) -> (res: Result<usize, GridError>)
        ensures
            self@.wf(),
            self@.holds(row as int, col as int) ==> res == Ok::<usize, GridError>(
                (row * self@.cols + col) as usize,
            ),
            match res {
                Ok(i) => self@.resolves(row as int, col as int) && i == self@.index_of(
                    row as int,
                    col as int,
                ),
                Err(e) => e == GridError::IndexOutOfRange && !self@.resolves(
                    row as int,
                    col as int,
                ),
            },
    {
        proof {
            use_type_invariant(self);
            if self@.holds(row as int, col as int) {
                self@.lemma_index_in_bounds(row as int, col as int);
            }
        }
        self.locate(row as i128, col as i128)
    }

    /// The cell that the coordinate `(row, col)` wraps to.
    fn cell_at(&self, row: i128, col: i128) -> (res: Result<Cell, GridError>)
        ensures
            match res {
                Ok(cell) => self@.resolves(row as int, col as int) && cell == self@.at(
                    row as int,
                    col as int,
                ),
                Err(e) => e == GridError::IndexOutOfRange && !self@.resolves(
                    row as int,
                    col as int,
                ),
            },
    {
        proof {
            use_type_invariant(self);
        }
        match self.locate(row, col) {
            Ok(i) => {
                proof {
                    self@.lemma_index_in_bounds(row as int, col as int);
                }
                Ok(self.cells[i])
            },
            Err(e) => Err(e),
        }
    }

    /// The eight neighbours of `(row, col)`, for coordinates of any width
    /// that leaves room for the offsets.
    fn neighborhood(&self, row: i128, col: i128) -> (res: Result<[Cell; 8], GridError>)
        requires
            i128::MIN < row < i128::MAX,
            i128::MIN < col < i128::MAX,
        ensures
            match res {
                Ok(cells) => self@.neighbors_resolve(row as int, col as int) && cells@
                    == self@.neighbors_of(row as int, col as int),
                Err(e) => e == GridError::IndexOutOfRange && !self@.neighbors_resolve(
                    row as int,
                    col as int,
                ),
            },
    {
        let ghost r = row as int;
        let ghost c = col as int;
        let n0 = self.cell_at(row + 1, col);
        let n1 = self.cell_at(row + 1, col + 1);
        let n2 = self.cell_at(row + 1, col - 1);
        let n3 = self.cell_at(row, col + 1);
        let n4 = self.cell_at(row, col - 1);
        let n5 = self.cell_at(row - 1, col);
        let n6 = self.cell_at(row - 1, col + 1);
        let n7 = self.cell_at(row - 1, col - 1);
        proof {
            assert(n0 is Ok <==> self@.resolves(r + row_offset(0), c + col_offset(0)));
            assert(n1 is Ok <==> self@.resolves(r + row_offset(1), c + col_offset(1)));
            assert(n2 is Ok <==> self@.resolves(r + row_offset(2), c + col_offset(2)));
            assert(n3 is Ok <==> self@.resolves(r + row_offset(3), c + col_offset(3)));
            assert(n4 is Ok <==> self@.resolves(r + row_offset(4), c + col_offset(4)));
            assert(n5 is Ok <==> self@.resolves(r + row_offset(5), c + col_offset(5)));
            assert(n6 is Ok <==> self@.resolves(r + row_offset(6), c + col_offset(6)));
            assert(n7 is Ok <==> self@.resolves(r + row_offset(7), c + col_offset(7)));
        }
        match (n0, n1, n2, n3, n4, n5, n6, n7) {
            (Ok(c0), Ok(c1), Ok(c2), Ok(c3), Ok(c4), Ok(c5), Ok(c6), Ok(c7)) => {
                let cells = [c0, c1, c2, c3, c4, c5, c6, c7];
                proof {
                    assert(cells@ =~= self@.neighbors_of(r, c));
                }
                Ok(cells)
            },
            _ => Err(GridError::IndexOutOfRange),
        }
    }

    /// The eight cells around `(row, col)` on the torus: the three of the
    /// next row, the two beside it, the three of the previous row, each found
    /// by wrapping its own coordinate.
    ///
    /// Refused with `IndexOutOfRange` exactly if one of the eight coordinates
    /// does not resolve; for a position of the grid all of them do.
    pub fn neighbors_of(&self, row: isize, col: isize) -> (res: Result<[Cell; 8], GridError>)
        ensures
            self@.wf(),
            self@.holds(row as int, col as int) ==> res is Ok,
            match res {
                Ok(cells) => self@.neighbors_resolve(row as int, col as int) && cells@
                    == self@.neighbors_of(row as int, col as int),
                Err(e) => e == GridError::IndexOutOfRange && !self@.neighbors_resolve(
                    row as int,
                    col as int,
                ),
            },
    {
        proof {
            use_type_invariant(self);
            if self@.holds(row as int, col as int) {
                self@.lemma_neighbors_resolve(row as int, col as int);
            }
        }
        self.neighborhood(row as i128, col as i128)
    }

    /// The linear index of the position `(row, col)` of the grid.
    fn index_at(&self, row: usize, col: usize) -> (i: usize)
        requires
            self@.holds(row as int, col as int),
        ensures
            i == row * self@.cols + col,
            i == self@.index_of(row as int, col as int),
            i < self@.cells.len(),
            self@.row_of(i as int) == row,
            self@.col_of(i as int) == col,
    {
        proof {
            use_type_invariant(self);
            self@.lemma_index_in_bounds(row as int, col as int);
            assert(self.cells@.len() == self.cells.len());
            assert(row * self.cols >= 0) by (nonlinear_arith)
                requires
                    row >= 0,
                    self.cols >= 0,
            ;
        }
        row * self.cols + col
    }

    /// The eight neighbours of the position `(row, col)` of the grid.
    fn neighbors_at(&self, row: usize, col: usize) -> (cells: [Cell; 8])
        requires
            self@.holds(row as int, col as int),
        ensures
            cells@ == self@.neighbors_of(row as int, col as int),
    {
        proof {
            use_type_invariant(self);
            self@.lemma_neighbors_resolve(row as int, col as int);
        }
        match self.neighborhood(row as i128, col as i128) {
            Ok(cells) => cells,
            Err(_) => unreached(),
        }
    }

    /// Flips the cell at the position `(row, col)`, which is taken as it is,
    /// without wrapping.
    ///
    /// Refused with `IndexOutOfRange` exactly if the position is not on the
    /// grid; the grid is then left as it was.
    pub fn toggle_at(&mut self, row: usize, col: usize) -> (res: Result<(), GridError>)
        ensures
            final(self)@.wf(),
            match res {
                Ok(_) => old(self)@.holds(row as int, col as int) && final(self)@ == old(
                    self,
                )@.toggle_at(row as int, col as int),
                Err(e) => e == GridError::IndexOutOfRange && !old(self)@.holds(
                    row as int,
                    col as int,
                ) && final(self)@ == old(self)@,
            },
    {
        proof {
            use_type_invariant(&*self);
        }
        if row >= self.rows || col >= self.cols {
            return Err(GridError::IndexOutOfRange);
        }
        let i: usize = self.index_at(row, col);
        let mut cell: Cell = self.cells[i];
        cell.toggle();
        self.cells[i] = cell;
        Ok(())
    }

    /// Every cell of the grid in row-major order, each with its row, its
    /// column and whether it is alive.
    pub fn cells(&self) -> (cells: Vec<(usize, usize, bool)>)
        ensures
            self@.wf(),
            cells@.len() == self@.cells.len(),
            forall|i: int|
                0 <= i < cells@.len() ==> #[trigger] cells@[i] == (
                    self@.row_of(i) as usize,
                    self@.col_of(i) as usize,
                    self@.cells[i].is_alive(),
                ),
    {
        proof {
            use_type_invariant(self);
        }
        let mut cells: Vec<(usize, usize, bool)> = Vec::new();
        let mut row: usize = 0;
        while row < self.rows
            invariant
                self@.wf(),
                row <= self.rows,
                cells@.len() == row * self.cols,
                forall|i: int|
                    0 <= i < cells@.len() ==> #[trigger] cells@[i] == (
                        self@.row_of(i) as usize,
                        self@.col_of(i) as usize,
                        self@.cells[i].is_alive(),
                    ),
            decreases self.rows - row,
        {
            let ghost base: int = row * self.cols;
            let mut col: usize = 0;
            while col < self.cols
                invariant
                    self@.wf(),
                    row < self.rows,
                    col <= self.cols,
                    base == row * self.cols,
                    cells@.len() == base + col,
                    forall|i: int|
                        0 <= i < cells@.len() ==> #[trigger] cells@[i] == (
                            self@.row_of(i) as usize,
                            self@.col_of(i) as usize,
                            self@.cells[i].is_alive(),
                        ),
                decreases self.cols - col,
            {
                let i: usize = self.index_at(row, col);
                cells.push((row, col, self.cells[i].is_alive()));
                col = col + 1;
            }
            proof {
                assert(base + self.cols == (row + 1) * self.cols) by (nonlinear_arith)
                    requires
                        base == row * self.cols,
                ;
            }
            row = row + 1;
        }
        proof {
            assert(row * self.cols == self.cols * self.rows) by (nonlinear_arith)
                requires
                    row == self.rows,
            ;
        }
        cells
    }

    /// Advances the grid by one generation.
    ///
    /// The scan judges every cell against the grid as it is and only writes
    /// down which cells are to die and which are to come to life; the commit
    /// then applies all deaths and all births.  So every cell of the new
    /// generation is decided by the neighbours it had in the old one.
    pub fn step(&mut self)
        ensures
            final(self)@.wf(),
            final(self)@ == old(self)@.step(),
    {
        proof {
            use_type_invariant(&*self);
        }
        let ghost before: Board = self@;
        let mut to_die: Vec<usize> = Vec::new();
        let mut to_live: Vec<usize> = Vec::new();
        proof {
            assert(as_ints(to_die@) =~= before.deaths(Board::rising(0)));
            assert(as_ints(to_live@) =~= before.births(Board::rising(0)));
        }
        let mut row: usize = 0;
        while row < self.rows
            invariant
                self@ == before,
                before.wf(),
                row <= self.rows,
                as_ints(to_die@) == before.deaths(Board::rising((row * self.cols) as nat)),
                as_ints(to_live@) == before.births(Board::rising((row * self.cols) as nat)),
                forall|k: int| 0 <= k < to_die@.len() ==> to_die@[k] < before.cells.len(),
                forall|k: int| 0 <= k < to_live@.len() ==> to_live@[k] < before.cells.len(),
            decreases self.rows - row,
        {
            let ghost base: int = row * self.cols;
            proof {
                assert(base >= 0) by (nonlinear_arith)
                    requires
                        base == row * self.cols,
                ;
            }
            let mut col: usize = 0;
            while col < self.cols
                invariant
                    self@ == before,
                    before.wf(),
                    row < self.rows,
                    col <= self.cols,
                    base == row * self.cols,
                    base >= 0,
                    as_ints(to_die@) == before.deaths(Board::rising((base + col) as nat)),
                    as_ints(to_live@) == before.births(Board::rising((base + col) as nat)),
                    forall|k: int| 0 <= k < to_die@.len() ==> to_die@[k] < before.cells.len(),
                    forall|k: int| 0 <= k < to_live@.len() ==> to_live@[k] < before.cells.len(),
                decreases self.cols - col,
            {
                let neighbors: [Cell; 8] = self.neighbors_at(row, col);
                let current: usize = self.index_at(row, col);
                let ghost visited = Board::rising((base + col) as nat);
                proof {
                    assert(Board::rising((base + col + 1) as nat) =~= visited.push(current as int));
                    before.lemma_scan_one_more(visited, current as int);
                    assert(as_ints(to_die@.push(current)) =~= as_ints(to_die@).push(
                        current as int,
                    ));
                    assert(as_ints(to_live@.push(current)) =~= as_ints(to_live@).push(
                        current as int,
                    ));
                }
                if self.cells[current].is_alive() {
                    if alone(neighbors.as_slice()) || overpopulated(neighbors.as_slice()) {
                        to_die.push(current);
                    }
                } else if can_spawn(neighbors.as_slice()) {
                    to_live.push(current);
                }
                col = col + 1;
            }
            proof {
                assert(base + self.cols == (row + 1) * self.cols) by (nonlinear_arith)
                    requires
                        base == row * self.cols,
                ;
            }
            row = row + 1;
        }
        let ghost deaths: Seq<int> = as_ints(to_die@);
        let ghost births: Seq<int> = as_ints(to_live@);
        proof {
            assert(row * self.cols == self.cols * self.rows) by (nonlinear_arith)
                requires
                    row == self.rows,
            ;
            let order = Board::rising(before.cells.len());
            assert forall|i: int| 0 <= i < before.cells.len() implies order.contains(i) by {
                assert(order[i] == i);
            }
            law_scan_order_is_immaterial(before, order);
            before.lemma_commit_nothing();
            assert(deaths.take(0) =~= Seq::<int>::empty());
        }
        let mut k: usize = 0;
        while k < to_die.len()
            invariant
                k <= to_die.len(),
                before.wf(),
                deaths == as_ints(to_die@),
                self@ == before.kill_all(deaths.take(k as int)),
                forall|k: int| 0 <= k < to_die@.len() ==> to_die@[k] < before.cells.len(),
            decreases to_die.len() - k,
        {
            let i: usize = to_die[k];
            proof {
                before.lemma_kill_one_more(deaths.take(k as int), i as int);
                assert(deaths.take(k + 1) =~= deaths.take(k as int).push(i as int));
            }
            let mut cell: Cell = self.cells[i];
            cell.kill();
            self.cells[i] = cell;
            k = k + 1;
        }
        let ghost culled: Board = before.kill_all(deaths);
        proof {
            assert(deaths.take(k as int) =~= deaths);
            culled.lemma_commit_nothing();
            assert(births.take(0) =~= Seq::<int>::empty());
        }
        let mut k: usize = 0;
        while k < to_live.len()
            invariant
                k <= to_live.len(),
                before.wf(),
                culled == before.kill_all(deaths),
                births == as_ints(to_live@),
                self@ == culled.revive_all(births.take(k as int)),
                forall|k: int| 0 <= k < to_live@.len() ==> to_live@[k] < before.cells.len(),
            decreases to_live.len() - k,
        {
            let i: usize = to_live[k];
            proof {
                culled.lemma_revive_one_more(births.take(k as int), i as int);
                assert(births.take(k + 1) =~= births.take(k as int).push(i as int));
            }
            let mut cell: Cell = self.cells[i];
            cell.revive();
            self.cells[i] = cell;
            k = k + 1;
        }
        proof {
            assert(births.take(k as int) =~= births);
        }
    }
}

} // verus!
