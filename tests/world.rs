use rgol::{Grid, ParseGridError, World};

#[test]
fn world_starts_at_generation_zero() {
    let w = World::parse("X·\n·X").unwrap();
    assert_eq!(w.generation(), 0);
    assert_eq!(w.grid().dim(), (2, 2));
}

#[test]
fn world_counts_generations() {
    let text = "·····\n·····\n·XXX·\n·····\n·····";
    let mut w: World = text.parse().unwrap();
    let mut g = Grid::parse(text).unwrap();
    for n in 1..=7u64 {
        w.tick();
        g.tick();
        assert_eq!(w.generation(), n);
        assert_eq!(*w.grid(), g);
    }
}

#[test]
fn world_from_grid() {
    let g = Grid::parse("XX\nXX").unwrap();
    let mut w = World::new(g.clone());
    w.tick();
    assert_eq!(w.generation(), 1);
    assert_eq!(*w.grid(), g);
}

#[test]
fn world_parse_errors() {
    assert_eq!(World::parse("").err(), Some(ParseGridError::Empty));
    assert_eq!(
        "XX\nX".parse::<World>().err(),
        Some(ParseGridError::NotRectangular { line: 2, found: 1, expected: 2 })
    );
}

#[test]
fn world_text() {
    let mut w = World::parse("X·\n·X\n··").unwrap();
    assert_eq!(w.to_string(), " X ·\n · X\n · ·\n\n(3, 2), generation: 0");
    for _ in 0..12 {
        w.tick();
    }
    assert_eq!(w.to_string(), " · ·\n · ·\n · ·\n\n(3, 2), generation: 12");
}
