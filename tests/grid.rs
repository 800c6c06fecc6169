use rgol::{Cell, Grid, GridSizeError, ParseGridError};

fn parse(s: &str) -> Grid {
    Grid::parse(s).unwrap()
}

fn alive_cells(g: &Grid) -> Vec<(usize, usize)> {
    let (nrow, ncol) = g.dim();
    let mut v = Vec::new();
    for i in 0..nrow {
        for j in 0..ncol {
            if g.get(i, j).is_alive() {
                v.push((i, j));
            }
        }
    }
    v
}

#[test]
fn parse_dimensions_follow_lines_and_first_row() {
    assert_eq!(parse("X·X\n·X·\n").dim(), (2, 3));
    assert_eq!(parse("X · X\n· X ·").dim(), (2, 3));
    assert_eq!(parse("X").dim(), (1, 1));
    assert_eq!(parse(" X\tX \n··").dim(), (2, 2));
}

#[test]
fn parse_reads_living_and_dead_cells() {
    let g = parse("X·\n·o");
    assert!(g.get(0, 0).is_alive());
    assert!(!g.get(0, 1).is_alive());
    assert!(!g.get(1, 0).is_alive());
    assert!(g.get(1, 1).is_alive());
}

#[test]
fn parse_ignores_carriage_returns() {
    let g = parse("X·\r\n·X\r\n");
    assert_eq!(g.dim(), (2, 2));
    assert_eq!(alive_cells(&g), vec![(0, 0), (1, 1)]);
}

#[test]
fn parse_rejects_non_rectangular() {
    assert_eq!(
        Grid::parse("XX\nX").unwrap_err(),
        ParseGridError::NotRectangular { line: 2, found: 1, expected: 2 }
    );
    assert_eq!(
        Grid::parse("XX\nXX\nXXX\nX").unwrap_err(),
        ParseGridError::NotRectangular { line: 3, found: 3, expected: 2 }
    );
    assert_eq!(
        Grid::parse("\nX").unwrap_err(),
        ParseGridError::NotRectangular { line: 2, found: 1, expected: 0 }
    );
    assert_eq!(
        Grid::parse("X\n\n").unwrap_err(),
        ParseGridError::NotRectangular { line: 2, found: 0, expected: 1 }
    );
}

#[test]
fn parse_rejects_empty() {
    assert_eq!(Grid::parse("").unwrap_err(), ParseGridError::Empty);
    assert_eq!(Grid::parse("\n\n").unwrap_err(), ParseGridError::Empty);
    assert_eq!(Grid::parse("  \n \t ").unwrap_err(), ParseGridError::Empty);
}

#[test]
fn from_str_parses_grid() {
    let g: Grid = "X·\n·X".parse().unwrap();
    assert_eq!(g.dim(), (2, 2));
    let e = "XX\nX".parse::<Grid>().unwrap_err();
    assert_eq!(e, ParseGridError::NotRectangular { line: 2, found: 1, expected: 2 });
}

#[test]
fn from_rows_reads_cell_characters() {
    let g = Grid::from_rows(&vec![vec!['X', '·'], vec!['·', '#']]).unwrap();
    assert_eq!(alive_cells(&g), vec![(0, 0), (1, 1)]);
    assert_eq!(
        Grid::from_rows(&vec![vec!['X', 'X'], vec!['X']]).unwrap_err(),
        ParseGridError::NotRectangular { line: 2, found: 1, expected: 2 }
    );
    assert_eq!(Grid::from_rows(&vec![]).unwrap_err(), ParseGridError::Empty);
    assert_eq!(Grid::from_rows(&vec![vec![], vec![]]).unwrap_err(), ParseGridError::Empty);
}

#[test]
fn lone_cell_dies() {
    let mut g = parse("···\n·X·\n···");
    g.tick();
    assert!(alive_cells(&g).is_empty());
}

#[test]
fn rule_table() {
    // The centre cell is alive with two living neighbours: it survives.
    let mut g = parse("X··\n·X·\n··X");
    g.tick();
    assert!(g.get(1, 1).is_alive());
    // Alive with three: survives.
    let mut g = parse("XX·\n·X·\n··X");
    g.tick();
    assert!(g.get(1, 1).is_alive());
    // Alive with four: dies.
    let mut g = parse("XXX\n·X·\n··X");
    g.tick();
    assert!(!g.get(1, 1).is_alive());
    // Alive with one: dies.
    let mut g = parse("X··\n·X·\n···");
    g.tick();
    assert!(!g.get(1, 1).is_alive());
    // Dead with three: comes alive.
    let mut g = parse("XX·\n···\n··X");
    g.tick();
    assert!(g.get(1, 1).is_alive());
    // Dead with two or four: stays dead.
    let mut g = parse("X··\n···\n··X");
    g.tick();
    assert!(!g.get(1, 1).is_alive());
    let mut g = parse("X·X\n···\nX·X");
    g.tick();
    assert!(!g.get(1, 1).is_alive());
}

#[test]
fn block_is_still_life() {
    let seed = parse("····\n·XX·\n·XX·\n····");
    let mut g = seed.clone();
    g.tick();
    assert_eq!(g, seed);
    assert_eq!(alive_cells(&g), vec![(1, 1), (1, 2), (2, 1), (2, 2)]);
}

#[test]
fn blinker_has_period_two() {
    let horizontal = parse("·····\n·····\n·XXX·\n·····\n·····");
    let vertical = parse("·····\n··X··\n··X··\n··X··\n·····");
    let mut g = horizontal.clone();
    g.tick();
    assert_eq!(g, vertical);
    assert_eq!(alive_cells(&g), vec![(1, 2), (2, 2), (3, 2)]);
    g.tick();
    assert_eq!(g, horizontal);
}

#[test]
fn corner_cell_sees_only_three_neighbours() {
    let mut g = parse("X··\n···\n···");
    g.tick();
    assert!(alive_cells(&g).is_empty());
    // Three living cells around a corner bring it to life; there is no wrapping.
    let mut g = parse("·X·\nXX·\n···");
    g.tick();
    assert!(g.get(0, 0).is_alive());
    let mut g = parse("··X\n···\nX·X");
    g.tick();
    assert!(!g.get(0, 0).is_alive());
}

#[test]
fn tick_keeps_dimensions() {
    let mut g = parse("X·X·\n·X··\n");
    g.tick();
    assert_eq!(g.dim(), (2, 4));
}

#[test]
fn new_grid_is_dead() {
    let g = Grid::new(3, 4).unwrap();
    assert_eq!(g.dim(), (3, 4));
    assert!(alive_cells(&g).is_empty());
    let g = Grid::new(1, 1).unwrap();
    assert_eq!(g.dim(), (1, 1));
}

#[test]
fn new_grid_rejects_zero_size() {
    assert_eq!(Grid::new(0, 5).unwrap_err(), GridSizeError::Zero);
    assert_eq!(Grid::new(5, 0).unwrap_err(), GridSizeError::Zero);
    assert_eq!(Grid::new(0, 0).unwrap_err(), GridSizeError::Zero);
}

#[test]
fn set_and_get_cells() {
    let mut g = Grid::new(2, 3).unwrap();
    g.set(1, 2, Cell::new_alive());
    assert!(g.get(1, 2).is_alive());
    assert_eq!(alive_cells(&g), vec![(1, 2)]);
    g.set(1, 2, Cell::new_dead());
    assert!(alive_cells(&g).is_empty());
}

#[test]
fn cells_report_their_state() {
    assert!(Cell::new_alive().is_alive());
    assert!(!Cell::new_dead().is_alive());
}

#[test]
fn grid_text() {
    let g = parse("X·\n·X\n··");
    assert_eq!(g.to_string(), " X ·\n · X\n · ·\n");
}

#[test]
fn grid_text_round_trips_dimensions() {
    let g = parse("X··\n·X·");
    let again = parse(&g.to_string());
    assert_eq!(again, g);
}
