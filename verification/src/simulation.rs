use vstd::prelude::*;
use crate::board::Board;
use crate::error::GridError;
use crate::grid::Grid;

verus! {

/// What a front end can tell the simulation.
#[derive(Clone, Copy, Debug, PartialEq, Eq, Structural)]
pub enum Msg {
    /// Let the timer advance the grid.
    Start,
    /// Stop the timer from advancing the grid.
    Stop,
    /// Advance the grid by one generation now, running or not.
    Step,
    /// The timer has fired.
    Tick,
}

/// What a front end chooses when it sets a simulation up.
#[derive(Clone, Copy, Debug, PartialEq, Eq, Structural)]
pub struct Config {
    /// The width of the grid.
    pub cols: usize,
    /// The height of the grid.
    pub rows: usize,
    /// The time between two ticks, in milliseconds.  The front end owns the
    /// timer; the simulation only carries the number.
    pub tick_interval_ms: u32,
}

impl Default for Config {
    /// A grid of fifty by fifty cells that ticks five times a second.
    fn default() -> (config: Config)
        ensures
            config == (Config { cols: 50, rows: 50, tick_interval_ms: 200 }),
    {
        Config { cols: 50, rows: 50, tick_interval_ms: 200 }
    }
}

/// The mathematical state of a simulation: whether it is running, and its
/// board.
pub struct Run {
    pub running: bool,
    pub board: Board,
}

impl Run {
    /// Whether `msg` advances the board by a generation: a step command
    /// always does, a tick only while the simulation is running.
    pub open spec fn advances(self, msg: Msg) -> bool {
        msg == Msg::Step || (msg == Msg::Tick && self.running)
    }

    /// The state after `msg`: a start command sets the simulation running, a
    /// stop command stops it, and the board moves on by one generation
    /// exactly if the message advances it.
    pub open spec fn update(self, msg: Msg) -> Run {
        Run {
            running: match msg {
                Msg::Start => true,
                Msg::Stop => false,
                _ => self.running,
            },
            board: if self.advances(msg) {
                self.board.step()
            } else {
                self.board
            },
        }
    }

    /// Whether the front end has to paint again after `msg`: after a start
    /// command and whenever the board has moved on.
    pub open spec fn repaints(self, msg: Msg) -> bool {
        msg == Msg::Start || self.advances(msg)
    }
}

/// A grid together with the start/stop state of its driver.
///
/// The simulation owns no timer.  The front end feeds it messages, one at a
/// time, and paints when it is told to.
#[derive(Debug, PartialEq, Eq)]
pub struct Simulation {
    running: bool,
    grid: Grid,
}

impl View for Simulation {
    type V = Run;

    closed spec fn view(&self) -> Run {
        Run { running: self.running, board: self.grid@ }
    }
}

impl Clone for Simulation {
    /// A simulation of its own in the same state.
    fn clone(&self) -> (copy: Simulation)
        ensures
            copy@ == self@,
    {
        Simulation { running: self.running, grid: self.grid.clone() }
    }
}

impl Simulation {
    /// A stopped simulation on `grid`.
    pub fn new(grid: Grid) -> (sim: Simulation)
        ensures
            sim@ == (Run { running: false, board: grid@ }),
    {
        Simulation { running: false, grid }
    }

    /// A stopped simulation on a randomly seeded grid of the dimensions that
    /// `config` names.
    ///
    /// Refused with `InvalidDimensions` exactly if a dimension is zero.  The
    /// number of cells has to fit the machine's address range.
    pub fn from_config(config: &Config) -> (res: Result<Simulation, GridError>)
        requires
            config.cols * config.rows <= usize::MAX,
        ensures
            match res {
                Ok(sim) => {
                    &&& config.cols > 0 && config.rows > 0
                    &&& !sim@.running
                    &&& sim@.board.wf()
                    &&& sim@.board.cols == config.cols && sim@.board.rows == config.rows
                    &&& sim@.board.cells.len() == config.cols * config.rows
                },
                Err(e) => e == GridError::InvalidDimensions && (config.cols == 0 || config.rows
                    == 0),
            },
    {
        match Grid::new(config.cols, config.rows) {
            Ok(grid) => Ok(Simulation::new(grid)),
            Err(e) => Err(e),
        }
    }

    /// Whether the timer advances the grid at present.
    pub fn is_running(&self) -> (running: bool)
        ensures
            running == self@.running,
    {
        self.running
    }

    /// The grid, to read its cells.
    pub fn grid(&self) -> (grid: &Grid)
        ensures
            grid@ == self@.board,
    {
        &self.grid
    }

    /// Takes one message and says whether the front end has to paint again.
    pub fn update(&mut self, msg: Msg) -> (repaint: bool)
        ensures
            final(self)@ == old(self)@.update(msg),
            repaint == old(self)@.repaints(msg),
    {
        match msg {
            Msg::Start => {
                self.running = true;
                true
            },
            Msg::Stop => {
                self.running = false;
                false
            },
            Msg::Step => {
                self.grid.step();
                true
            },
            Msg::Tick => {
                if self.running {
                    self.grid.step();
                    true
                } else {
                    false
                }
            },
        }
    }

    /// Flips the cell at the position `(row, col)` of the grid, on behalf of
    /// a user who edits it.  The running state stays as it is.
    ///
    /// Refused with `IndexOutOfRange` exactly if the position is not on the
    /// grid; nothing changes then.
    pub fn toggle_at(&mut self, row: usize, col: usize) -> (res: Result<(), GridError>)
        ensures
            final(self)@.running == old(self)@.running,
            match res {
                Ok(_) => old(self)@.board.holds(row as int, col as int) && final(self)@.board
                    == old(self)@.board.toggle_at(row as int, col as int),
                Err(e) => e == GridError::IndexOutOfRange && !old(self)@.board.holds(
                    row as int,
                    col as int,
                ) && final(self)@.board == old(self)@.board,
            },
    {
        self.grid.toggle_at(row, col)
    }
}

} // verus!
