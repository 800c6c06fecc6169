use rgol::text::dead_grid_text;
use rgol::{GridSizeError, ParseGridError};

#[test]
fn dead_grid_template() {
    assert_eq!(dead_grid_text(2, 3, false).unwrap(), "···\n···\n");
    assert_eq!(dead_grid_text(2, 3, true).unwrap(), "· · ·\n· · ·\n");
    assert_eq!(dead_grid_text(1, 1, true).unwrap(), "·\n");
}

#[test]
fn dead_grid_template_rejects_zero_size() {
    assert_eq!(dead_grid_text(0, 3, false).unwrap_err(), GridSizeError::Zero);
    assert_eq!(dead_grid_text(3, 0, true).unwrap_err(), GridSizeError::Zero);
    assert_eq!(dead_grid_text(0, 0, false).unwrap_err(), GridSizeError::Zero);
}

#[test]
fn dead_grid_template_parses_back() {
    let t = dead_grid_text(4, 5, true).unwrap();
    let g = rgol::Grid::parse(&t).unwrap();
    assert_eq!(g.dim(), (4, 5));
    assert_eq!(g, rgol::Grid::new(4, 5).unwrap());
}

#[test]
fn error_texts() {
    assert_eq!(GridSizeError::Zero.to_string(), "size provided for the grid is 0");
    assert_eq!(ParseGridError::Empty.to_string(), "grid is empty");
    assert_eq!(
        ParseGridError::NotRectangular { line: 12, found: 1, expected: 305 }.to_string(),
        "grid is not rectangular (line 12, expected 305 cells, found 1)"
    );
}
