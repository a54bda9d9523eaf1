use game_of_life::simulation::{Config, Msg, Simulation};
use game_of_life::{Cell, Grid, GridError};

/// The grid that the picture shows: one string per row, `#` for a living
/// cell, anything else for a dead one.
fn stage(picture: &[&str]) -> Grid {
    let cols = picture[0].len();
    let mut cells = Vec::new();
    for line in picture {
        for mark in line.chars() {
            cells.push(Cell::from_alive(mark == '#'));
        }
    }
    Grid::from_cells(cols, picture.len(), cells).unwrap()
}

/// The picture of the simulation's grid, one string per row.
fn view(sim: &Simulation) -> Vec<String> {
    let mut picture = vec![String::new(); sim.grid().rows()];
    for (row, _, alive) in sim.grid().cells() {
        picture[row].push(if alive { '#' } else { '.' });
    }
    picture
}

const CROSS: [&str; 5] = [".....", "..#..", ".###.", "..#..", "....."];
const ROW: [&str; 5] = [".....", ".....", ".###.", ".....", "....."];
const RING: [&str; 5] = [".....", ".###.", ".#.#.", ".###.", "....."];

#[test]
fn a_simulation_starts_stopped() {
    let sim = Simulation::new(stage(&ROW));
    assert!(!sim.is_running());
    assert_eq!(view(&sim), ROW);
}

#[test]
fn start_sets_it_running_and_asks_for_paint() {
    let mut sim = Simulation::new(stage(&ROW));
    assert!(sim.update(Msg::Start));
    assert!(sim.is_running());
    assert_eq!(view(&sim), ROW);
    assert!(sim.update(Msg::Start));
    assert!(sim.is_running());
}

#[test]
fn stop_stops_it_and_asks_for_no_paint() {
    let mut sim = Simulation::new(stage(&ROW));
    sim.update(Msg::Start);
    assert!(!sim.update(Msg::Stop));
    assert!(!sim.is_running());
    assert_eq!(view(&sim), ROW);
    assert!(!sim.update(Msg::Stop));
    assert!(!sim.is_running());
}

#[test]
fn a_tick_is_ignored_while_stopped() {
    let mut sim = Simulation::new(stage(&ROW));
    assert!(!sim.update(Msg::Tick));
    assert!(!sim.is_running());
    assert_eq!(view(&sim), ROW);
}

#[test]
fn a_tick_advances_a_running_simulation() {
    let mut sim = Simulation::new(stage(&ROW));
    sim.update(Msg::Start);
    assert!(sim.update(Msg::Tick));
    assert_eq!(view(&sim), CROSS);
    assert!(sim.update(Msg::Tick));
    assert_eq!(view(&sim), RING);
    assert!(sim.is_running());
    sim.update(Msg::Stop);
    assert!(!sim.update(Msg::Tick));
    assert_eq!(view(&sim), RING);
}

#[test]
fn a_step_advances_once_running_or_not() {
    let mut sim = Simulation::new(stage(&ROW));
    assert!(sim.update(Msg::Step));
    assert!(!sim.is_running());
    assert_eq!(view(&sim), CROSS);
    sim.update(Msg::Start);
    assert!(sim.update(Msg::Step));
    assert!(sim.is_running());
    assert_eq!(view(&sim), RING);
}

#[test]
fn a_user_edit_flips_one_cell_and_leaves_the_rest() {
    let mut sim = Simulation::new(stage(&ROW));
    sim.update(Msg::Start);
    assert_eq!(sim.toggle_at(1, 2), Ok(()));
    assert_eq!(sim.toggle_at(3, 2), Ok(()));
    assert!(sim.is_running());
    assert_eq!(view(&sim), CROSS);
    assert_eq!(sim.toggle_at(5, 0), Err(GridError::IndexOutOfRange));
    assert_eq!(sim.toggle_at(0, 5), Err(GridError::IndexOutOfRange));
    assert_eq!(view(&sim), CROSS);
}

#[test]
fn the_default_setup_is_fifty_by_fifty_at_five_ticks_a_second() {
    let config = Config::default();
    assert_eq!(config, Config { cols: 50, rows: 50, tick_interval_ms: 200 });
    let sim = Simulation::from_config(&config).unwrap();
    assert!(!sim.is_running());
    assert_eq!(sim.grid().cols(), 50);
    assert_eq!(sim.grid().rows(), 50);
    assert_eq!(sim.grid().cells().len(), 2500);
}

#[test]
fn a_setup_without_cells_is_refused() {
    let no_cols = Config { cols: 0, rows: 4, tick_interval_ms: 200 };
    let no_rows = Config { cols: 4, rows: 0, tick_interval_ms: 200 };
    assert_eq!(Simulation::from_config(&no_cols).unwrap_err(), GridError::InvalidDimensions);
    assert_eq!(Simulation::from_config(&no_rows).unwrap_err(), GridError::InvalidDimensions);
}

#[test]
fn a_clone_runs_on_its_own() {
    let mut sim = Simulation::new(stage(&ROW));
    let copy = sim.clone();
    assert_eq!(copy, sim);
    sim.update(Msg::Step);
    assert_eq!(view(&copy), ROW);
    assert_eq!(view(&sim), CROSS);
}
