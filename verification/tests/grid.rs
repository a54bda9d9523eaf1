use game_of_life::rule::{alone, can_spawn, living_neighbor_count, overpopulated};
use game_of_life::{Cell, CoinSource, Grid, GridError, ScriptedCoin};

/// The grid that the picture shows: one string per row, `#` for a living
/// cell, anything else for a dead one.
fn grid_of(picture: &[&str]) -> Grid {
    let cols = picture[0].len();
    let mut cells = Vec::new();
    for line in picture {
        assert_eq!(line.len(), cols);
        for mark in line.chars() {
            cells.push(Cell::from_alive(mark == '#'));
        }
    }
    Grid::from_cells(cols, picture.len(), cells).unwrap()
}

/// The picture of the grid, one string per row.
fn picture_of(grid: &Grid) -> Vec<String> {
    let mut picture = vec![String::new(); grid.rows()];
    for (row, _, alive) in grid.cells() {
        picture[row].push(if alive { '#' } else { '.' });
    }
    picture
}

/// The cells of a neighbourhood as a string of marks.
fn marks(cells: &[Cell]) -> String {
    cells.iter().map(|cell| if cell.is_alive() { '#' } else { '.' }).collect()
}

#[test]
fn new_grid_has_cols_times_rows_cells() {
    for (cols, rows) in [(1, 1), (1, 7), (7, 1), (3, 3), (4, 9), (50, 50)] {
        let grid = Grid::new(cols, rows).unwrap();
        assert_eq!(grid.cols(), cols);
        assert_eq!(grid.rows(), rows);
        assert_eq!(grid.cells().len(), cols * rows);
    }
}

#[test]
fn new_refuses_an_empty_dimension() {
    assert_eq!(Grid::new(0, 5).unwrap_err(), GridError::InvalidDimensions);
    assert_eq!(Grid::new(5, 0).unwrap_err(), GridError::InvalidDimensions);
    assert_eq!(Grid::new(0, 0).unwrap_err(), GridError::InvalidDimensions);
}

#[test]
fn new_grid_is_seeded_with_both_states() {
    let grid = Grid::new(50, 50).unwrap();
    let alive = grid.cells().iter().filter(|cell| cell.2).count();
    assert!(alive > 0);
    assert!(alive < 2500);
}

#[test]
fn with_source_draws_one_flip_per_cell_in_row_major_order() {
    let mut coin = ScriptedCoin::new(vec![true, false, false, true, true, true, true]);
    let grid = Grid::with_source(3, 2, &mut coin).unwrap();
    assert_eq!(picture_of(&grid), vec!["#..", "###"]);
    // Six cells have drawn six flips: the seventh entry comes next, and the
    // script ends with it.
    assert!(coin.flip());
    assert!(!coin.flip());
}

#[test]
fn with_source_goes_on_where_the_source_stands() {
    let mut coin = ScriptedCoin::new(vec![true, false, false, false, true, true, false, true]);
    assert!(coin.flip());
    let first = Grid::with_source(2, 1, &mut coin).unwrap();
    assert_eq!(picture_of(&first), vec![".."]);
    let second = Grid::with_source(2, 2, &mut coin).unwrap();
    assert_eq!(picture_of(&second), vec![".#", "#."]);
    assert!(coin.flip());
}

#[test]
fn with_source_fills_up_with_dead_cells_after_the_script() {
    let mut coin = ScriptedCoin::new(vec![true, true, true, true]);
    let grid = Grid::with_source(3, 3, &mut coin).unwrap();
    assert_eq!(picture_of(&grid), vec!["###", "#..", "..."]);
}

#[test]
fn with_source_refuses_an_empty_dimension_before_it_flips() {
    let mut coin = ScriptedCoin::new(vec![true]);
    assert_eq!(Grid::with_source(0, 3, &mut coin).unwrap_err(), GridError::InvalidDimensions);
    assert_eq!(Grid::with_source(3, 0, &mut coin).unwrap_err(), GridError::InvalidDimensions);
    assert!(coin.flip());
}

#[test]
fn from_cells_keeps_the_cells_in_row_major_order() {
    let cells = vec![
        Cell::from_alive(true),
        Cell::from_alive(false),
        Cell::from_alive(false),
        Cell::from_alive(false),
        Cell::from_alive(true),
        Cell::from_alive(true),
    ];
    let grid = Grid::from_cells(2, 3, cells).unwrap();
    assert_eq!(grid.cols(), 2);
    assert_eq!(grid.rows(), 3);
    assert_eq!(
        grid.cells(),
        vec![
            (0, 0, true),
            (0, 1, false),
            (1, 0, false),
            (1, 1, false),
            (2, 0, true),
            (2, 1, true),
        ]
    );
}

#[test]
fn from_cells_refuses_dimensions_that_do_not_fit_the_cells() {
    let five = vec![Cell::from_alive(false); 5];
    assert_eq!(Grid::from_cells(2, 3, five.clone()).unwrap_err(), GridError::InvalidDimensions);
    assert_eq!(Grid::from_cells(0, 5, five.clone()).unwrap_err(), GridError::InvalidDimensions);
    assert_eq!(Grid::from_cells(5, 0, five.clone()).unwrap_err(), GridError::InvalidDimensions);
    assert_eq!(Grid::from_cells(0, 0, Vec::new()).unwrap_err(), GridError::InvalidDimensions);
    assert_eq!(
        Grid::from_cells(usize::MAX, 2, five.clone()).unwrap_err(),
        GridError::InvalidDimensions
    );
    assert!(Grid::from_cells(5, 1, five.clone()).is_ok());
    assert!(Grid::from_cells(1, 5, five).is_ok());
}

#[test]
fn index_of_is_row_major_on_the_grid() {
    let grid = grid_of(&["....", "....", "...."]);
    assert_eq!(grid.index_of(0, 0), Ok(0));
    assert_eq!(grid.index_of(0, 3), Ok(3));
    assert_eq!(grid.index_of(1, 0), Ok(4));
    assert_eq!(grid.index_of(2, 1), Ok(9));
    assert_eq!(grid.index_of(2, 3), Ok(11));
}

#[test]
fn index_of_wraps_each_axis_at_its_own_length() {
    let grid = grid_of(&["....", "....", "...."]);
    assert_eq!(grid.index_of(-1, 0), grid.index_of(2, 0));
    assert_eq!(grid.index_of(-1, 0), Ok(8));
    assert_eq!(grid.index_of(3, 0), grid.index_of(0, 0));
    assert_eq!(grid.index_of(3, 0), Ok(0));
    assert_eq!(grid.index_of(0, -1), grid.index_of(0, 3));
    assert_eq!(grid.index_of(0, -1), Ok(3));
    assert_eq!(grid.index_of(0, 4), grid.index_of(0, 0));
    assert_eq!(grid.index_of(0, 4), Ok(0));
    assert_eq!(grid.index_of(-1, -1), Ok(11));
    assert_eq!(grid.index_of(3, 4), Ok(0));
    assert_eq!(grid.index_of(-3, -4), Ok(0));
    assert_eq!(grid.index_of(5, 7), Ok(11));
}

#[test]
fn index_of_wraps_around_a_square_grid() {
    for side in 1..6_usize {
        let grid = Grid::new(side, side).unwrap();
        let cols = grid.cols() as isize;
        let rows = grid.rows() as isize;
        assert_eq!(grid.index_of(-1, 0), grid.index_of(cols - 1, 0));
        assert_eq!(grid.index_of(cols, 0), grid.index_of(0, 0));
        assert_eq!(grid.index_of(0, -1), grid.index_of(0, rows - 1));
        assert_eq!(grid.index_of(0, rows), grid.index_of(0, 0));
    }
}

#[test]
fn index_of_wraps_around_any_grid() {
    for (cols, rows) in [(1, 1), (1, 4), (4, 1), (3, 2), (2, 3), (5, 7)] {
        let grid = Grid::new(cols, rows).unwrap();
        let (w, h) = (cols as isize, rows as isize);
        for col in 0..w {
            assert_eq!(grid.index_of(-1, col), grid.index_of(h - 1, col));
            assert_eq!(grid.index_of(h, col), grid.index_of(0, col));
        }
        for row in 0..h {
            assert_eq!(grid.index_of(row, -1), grid.index_of(row, w - 1));
            assert_eq!(grid.index_of(row, w), grid.index_of(row, 0));
        }
    }
}

#[test]
fn index_of_keeps_the_axes_apart_on_a_grid_that_is_not_square() {
    let wide = Grid::new(3, 2).unwrap();
    assert_eq!(wide.index_of(-1, 0), Ok(3));
    assert_eq!(wide.index_of(1, 0), Ok(3));
    assert_eq!(wide.index_of(2, 0), Ok(0));
    assert_eq!(wide.index_of(0, -1), Ok(2));
    assert_eq!(wide.index_of(0, 3), Ok(0));
    assert_eq!(wide.index_of(3, 0), Ok(3));
    assert_eq!(wide.index_of(4, 0), Err(GridError::IndexOutOfRange));
    let tall = Grid::new(2, 3).unwrap();
    assert_eq!(tall.index_of(-1, 0), Ok(4));
    assert_eq!(tall.index_of(3, 0), Ok(0));
    assert_eq!(tall.index_of(0, -1), Ok(1));
    assert_eq!(tall.index_of(0, 2), Ok(0));
    assert_eq!(tall.index_of(0, 3), Ok(1));
    assert_eq!(tall.index_of(0, 4), Err(GridError::IndexOutOfRange));
}

#[test]
fn index_of_refuses_more_than_one_dimension_away() {
    let grid = grid_of(&["....", "....", "...."]);
    assert_eq!(grid.index_of(-4, 0), Err(GridError::IndexOutOfRange));
    assert_eq!(grid.index_of(6, 0), Err(GridError::IndexOutOfRange));
    assert_eq!(grid.index_of(0, -5), Err(GridError::IndexOutOfRange));
    assert_eq!(grid.index_of(0, 8), Err(GridError::IndexOutOfRange));
    assert_eq!(grid.index_of(isize::MIN, 0), Err(GridError::IndexOutOfRange));
    assert_eq!(grid.index_of(0, isize::MAX), Err(GridError::IndexOutOfRange));
}

#[test]
fn index_of_names_every_cell_once() {
    let grid = Grid::new(5, 3).unwrap();
    let mut seen = vec![false; 15];
    for row in 0..3 {
        for col in 0..5 {
            let i = grid.index_of(row, col).unwrap();
            assert!(!seen[i]);
            seen[i] = true;
        }
    }
    assert!(seen.iter().all(|&hit| hit));
}

#[test]
fn neighbors_of_an_interior_cell_come_in_offset_order() {
    let grid = grid_of(&[
        ".....", //
        "...#.", //
        ".#...", //
        "..##.", //
        ".....",
    ]);
    // next row, then the same row, then the previous row; within a row the
    // cell straight across, then the one to the right, then the one to the
    // left.
    let cells = grid.neighbors_of(2, 2).unwrap();
    assert_eq!(cells.len(), 8);
    assert_eq!(marks(&cells), "##..#.#.");
}

#[test]
fn neighbors_of_a_corner_wrap_around() {
    let grid = grid_of(&[
        ".#.#", //
        "#...", //
        "...#",
    ]);
    let cells = grid.neighbors_of(0, 0).unwrap();
    assert_eq!(cells.len(), 8);
    assert_eq!(marks(&cells), "#..##..#");
    let cells = grid.neighbors_of(2, 3).unwrap();
    assert_eq!(marks(&cells), "#.....#.");
}

#[test]
fn neighbors_of_every_cell_are_eight() {
    for (cols, rows) in [(1, 1), (1, 3), (3, 1), (2, 2), (3, 3), (6, 4)] {
        let grid = Grid::new(cols, rows).unwrap();
        for row in 0..rows as isize {
            for col in 0..cols as isize {
                assert_eq!(grid.neighbors_of(row, col).unwrap().len(), 8);
            }
        }
    }
}

#[test]
fn neighbors_on_a_grid_of_one_cell_are_that_cell() {
    assert_eq!(marks(&grid_of(&["#"]).neighbors_of(0, 0).unwrap()), "########");
    assert_eq!(marks(&grid_of(&["."]).neighbors_of(0, 0).unwrap()), "........");
}

#[test]
fn neighbors_of_a_coordinate_next_to_the_grid_still_resolve() {
    let grid = grid_of(&[
        "#..", //
        ".#.", //
        "..#",
    ]);
    assert_eq!(grid.neighbors_of(-1, 0).unwrap(), grid.neighbors_of(2, 0).unwrap());
    assert_eq!(grid.neighbors_of(3, 3).unwrap(), grid.neighbors_of(0, 0).unwrap());
    assert_eq!(grid.neighbors_of(-2, -2).unwrap(), grid.neighbors_of(1, 1).unwrap());
    assert_eq!(grid.neighbors_of(4, 4).unwrap(), grid.neighbors_of(1, 1).unwrap());
}

#[test]
fn neighbors_of_refuses_a_neighbour_out_of_reach() {
    let grid = grid_of(&["...", "...", "..."]);
    assert_eq!(grid.neighbors_of(-3, 0).unwrap_err(), GridError::IndexOutOfRange);
    assert_eq!(grid.neighbors_of(5, 0).unwrap_err(), GridError::IndexOutOfRange);
    assert_eq!(grid.neighbors_of(0, -3).unwrap_err(), GridError::IndexOutOfRange);
    assert_eq!(grid.neighbors_of(0, 5).unwrap_err(), GridError::IndexOutOfRange);
    assert_eq!(grid.neighbors_of(isize::MAX, 0).unwrap_err(), GridError::IndexOutOfRange);
    assert_eq!(grid.neighbors_of(0, isize::MIN).unwrap_err(), GridError::IndexOutOfRange);
    let line = grid_of(&["..."]);
    assert!(line.neighbors_of(0, 1).is_ok());
    assert_eq!(line.neighbors_of(1, 1).unwrap_err(), GridError::IndexOutOfRange);
    assert_eq!(line.neighbors_of(-1, 1).unwrap_err(), GridError::IndexOutOfRange);
}

#[test]
fn living_neighbor_count_counts_the_living() {
    let alive = Cell::from_alive(true);
    let dead = Cell::from_alive(false);
    assert_eq!(living_neighbor_count(&[]), 0);
    assert_eq!(living_neighbor_count(&[dead; 8]), 0);
    assert_eq!(living_neighbor_count(&[alive; 8]), 8);
    assert_eq!(living_neighbor_count(&[alive, dead, dead, alive, dead, alive, dead, dead]), 3);
    assert_eq!(living_neighbor_count(&[dead, dead, dead, dead, dead, dead, dead, alive]), 1);
    assert_eq!(living_neighbor_count(&[alive, alive, dead]), 2);
}

#[test]
fn the_rule_draws_its_lines_at_zero_and_three() {
    let alive = Cell::from_alive(true);
    let dead = Cell::from_alive(false);
    for living in 0..=8 {
        let mut cells = [dead; 8];
        for cell in cells.iter_mut().take(living) {
            *cell = alive;
        }
        assert_eq!(alone(&cells), living == 0);
        assert_eq!(overpopulated(&cells), living > 3);
        assert_eq!(can_spawn(&cells), living == 3);
    }
}

#[test]
fn toggle_at_flips_one_cell() {
    let mut grid = grid_of(&["...", "...", "..."]);
    assert_eq!(grid.toggle_at(1, 2), Ok(()));
    assert_eq!(picture_of(&grid), vec!["...", "..#", "..."]);
    assert_eq!(grid.toggle_at(0, 0), Ok(()));
    assert_eq!(picture_of(&grid), vec!["#..", "..#", "..."]);
    assert_eq!(grid.toggle_at(1, 2), Ok(()));
    assert_eq!(picture_of(&grid), vec!["#..", "...", "..."]);
}

#[test]
fn toggle_at_twice_gives_the_grid_back() {
    let start = grid_of(&["#..#", ".##.", "...#"]);
    for row in 0..3 {
        for col in 0..4 {
            let mut grid = start.clone();
            grid.toggle_at(row, col).unwrap();
            assert_ne!(grid, start);
            grid.toggle_at(row, col).unwrap();
            assert_eq!(grid, start);
        }
    }
}

#[test]
fn toggle_at_takes_the_coordinate_as_it_is() {
    let start = grid_of(&["#..#", ".##.", "...#"]);
    let mut grid = start.clone();
    assert_eq!(grid.toggle_at(3, 0), Err(GridError::IndexOutOfRange));
    assert_eq!(grid.toggle_at(0, 4), Err(GridError::IndexOutOfRange));
    assert_eq!(grid.toggle_at(3, 4), Err(GridError::IndexOutOfRange));
    assert_eq!(grid.toggle_at(usize::MAX, usize::MAX), Err(GridError::IndexOutOfRange));
    assert_eq!(grid, start);
    assert_eq!(grid.toggle_at(2, 3), Ok(()));
    assert_eq!(picture_of(&grid), vec!["#..#", ".##.", "...."]);
}

#[test]
fn cells_lists_every_position_with_its_state() {
    let grid = grid_of(&["#.", ".#", "##"]);
    let cells = grid.cells();
    assert_eq!(cells.len(), 6);
    for (i, (row, col, alive)) in cells.iter().enumerate() {
        assert_eq!(*row, i / 2);
        assert_eq!(*col, i % 2);
        assert_eq!(grid.index_of(*row as isize, *col as isize), Ok(i));
        assert_eq!(*alive, [true, false, false, true, true, true][i]);
    }
}

#[test]
fn a_clone_is_a_grid_of_its_own() {
    let start = grid_of(&["#.", ".#"]);
    let mut copy = start.clone();
    assert_eq!(copy, start);
    copy.toggle_at(0, 0).unwrap();
    assert_eq!(picture_of(&start), vec!["#.", ".#"]);
    assert_eq!(picture_of(&copy), vec!["..", ".#"]);
}
