use vstd::prelude::*;
use crate::coin::{CoinSource, ThreadCoin};

verus! {

/// The two states a grid position can be in.
#[derive(Clone, Copy, Debug, PartialEq, Eq, Structural)]
pub enum State {
    Alive,
    Dead,
}

/// One grid position.  A cell is always exactly alive or dead.
#[derive(Clone, Copy, Debug, PartialEq, Eq, Structural)]
pub struct Cell {
    pub state: State,
}

/// Of each cell in turn, whether it is alive.
pub open spec fn alive_flags(cells: Seq<Cell>) -> Seq<bool> {
    cells.map_values(|cell: Cell| cell.is_alive())
}

impl Cell {
    /// Whether the cell is alive, for use in contracts.
    pub open spec fn spec_is_alive(self) -> bool {
        self.state == State::Alive
    }

    /// The living cell.
    pub open spec fn living() -> Cell {
        Cell { state: State::Alive }
    }

    /// The dead cell.
    pub open spec fn lifeless() -> Cell {
        Cell { state: State::Dead }
    }

    /// The cell with the opposite state.
    pub open spec fn toggled(self) -> Cell {
        if self.spec_is_alive() {
            Cell::lifeless()
        } else {
            Cell::living()
        }
    }

    /// The cell that is alive exactly if `alive` is set.
    pub fn from_alive(alive: bool) -> (cell: Cell)
        ensures
            cell == (if alive { Cell::living() } else { Cell::lifeless() }),
    {
        if alive {
            Cell { state: State::Alive }
        } else {
            Cell { state: State::Dead }
        }
    }

    /// A cell whose state is decided by one flip of `source`: alive on
    /// heads, dead on tails.  Exactly one flip is drawn.
    pub fn new_random<S: CoinSource>(source: &mut S) -> (cell: Cell)
        ensures
            final(source).flips() == old(source).flips().push(cell.is_alive()),
    {
        let alive = source.flip();
        Cell::from_alive(alive)
    }

    /// A cell that is alive with probability one half, drawn from the
    /// thread-local random number generator.
    pub fn new() -> (cell: Cell) {
        let mut coin = ThreadCoin::new();
        Cell::new_random(&mut coin)
    }

    /// Whether the cell is alive.
    #[verifier::when_used_as_spec(spec_is_alive)]
    pub fn is_alive(self) -> (alive: bool)
        ensures
            alive == self.spec_is_alive(),
    {
        match self.state {
            State::Alive => true,
            State::Dead => false,
        }
    }

    /// Sets the state to dead, whatever it was.
    pub fn kill(&mut self)
        ensures
            *final(self) == Cell::lifeless(),
    {
        self.state = State::Dead;
    }

    /// Sets the state to alive, whatever it was.
    pub fn revive(&mut self)
        ensures
            *final(self) == Cell::living(),
    {
        self.state = State::Alive;
    }

    /// Flips the state.
    pub fn toggle(&mut self)
        ensures
            *final(self) == old(self).toggled(),
    {
        if self.is_alive() {
            self.state = State::Dead;
        } else {
            self.state = State::Alive;
        }
    }

    /// The word a front end shows for the cell: `"alive"` or `"dead"`.
    pub fn label(self) -> (word: &'static str)
        ensures
            word@ == (if self.is_alive() { "alive"@ } else { "dead"@ }),
    {
        if self.is_alive() {
            "alive"
        } else {
            "dead"
        }
    }
}

} // verus!
