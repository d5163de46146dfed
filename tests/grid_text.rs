use metro_loop::logic::grid::{get_mut, ivec2, Grid};
use metro_loop::logic::text::GridTextError;

#[test]
fn test_minimal() {
    let grid = Grid::new(2, 1, ivec2(0, 1));
    let s = grid.to_string();
    let parsed = Grid::from_str(&s).unwrap();
    assert_eq!(parsed.cells, grid.cells);
    assert_eq!(parsed.fixed_cells, grid.fixed_cells);
    assert_eq!(parsed.root, grid.root);
}

#[test]
fn test_4_3() {
    let grid = Grid::new(4, 3, ivec2(1, 2));
    let s = grid.to_string();
    let parsed = Grid::from_str(&s).unwrap();
    assert_eq!(parsed.cells, grid.cells);
    assert_eq!(parsed.fixed_cells, grid.fixed_cells);
    assert_eq!(parsed.root, grid.root);
}

#[test]
fn test_6_5() {
    let grid = Grid::new(6, 5, ivec2(2, 3));
    let s = grid.to_string();
    let parsed = Grid::from_str(&s).unwrap();
    assert_eq!(parsed.cells, grid.cells);
    assert_eq!(parsed.fixed_cells, grid.fixed_cells);
    assert_eq!(parsed.root, grid.root);
}

#[test]
fn test_extra_enabled() {
    let mut grid = Grid::new(6, 5, ivec2(2, 3));
    *get_mut(&mut grid.cells, 1, 3) = true;
    *get_mut(&mut grid.fixed_cells, 2, 3) = true;
    *get_mut(&mut grid.cells, 2, 1) = true;
    *get_mut(&mut grid.fixed_cells, 2, 1) = true;
    let s = grid.to_string();
    let parsed = Grid::from_str(&s).unwrap();
    assert_eq!(parsed.cells, grid.cells);
    assert_eq!(parsed.fixed_cells, grid.fixed_cells);
    assert_eq!(parsed.root, grid.root);
}

#[test]
fn test_custom_root() {
    let grid = Grid::new(6, 5, ivec2(1, 3));
    let s = grid.to_string();
    let parsed = Grid::from_str(&s).unwrap();
    assert_eq!(parsed.cells, grid.cells);
    assert_eq!(parsed.fixed_cells, grid.fixed_cells);
    assert_eq!(parsed.root, grid.root);
}

#[test]
fn text_of_new_grid_is_exact() {
    let grid = Grid::new(4, 3, ivec2(1, 2));
    assert_eq!(grid.to_string(), "...\n...\n.%.\n...\n");
}

#[test]
fn text_glyphs_read_back() {
    let parsed = Grid::from_str("@O\n. %\n").unwrap();
    assert_eq!(parsed.num_rows, 2);
    assert_eq!(parsed.num_columns, 3);
    assert_eq!(parsed.cells, vec![vec![true, true, false], vec![false, false, true]]);
    assert_eq!(parsed.fixed_cells, vec![vec![true, false, false], vec![true, false, true]]);
    assert_eq!(parsed.root, ivec2(2, 1));
}

#[test]
fn text_last_line_without_newline_counts() {
    let parsed = Grid::from_str("..\n.%").unwrap();
    assert_eq!(parsed.num_rows, 2);
    assert_eq!(parsed.root, ivec2(1, 1));
}

#[test]
fn text_wrong_glyph_is_reported() {
    let parsed = Grid::from_str("..\n.x%\n");
    assert_eq!(parsed.err(), Some(GridTextError::WrongGlyph { line: 2, letter: 2 }));
}

#[test]
fn text_without_root_is_refused() {
    let parsed = Grid::from_str("...\n...\n");
    assert_eq!(parsed.err(), Some(GridTextError::MissingRoot));
}

#[test]
fn text_with_crlf_line_endings_reads() {
    let parsed = Grid::from_str("..\r\n.%\r\n").unwrap();
    assert_eq!(parsed.num_rows, 2);
    assert_eq!(parsed.num_columns, 2);
    assert_eq!(parsed.root, ivec2(1, 1));
}

#[test]
fn text_lone_carriage_return_is_wrong() {
    let parsed = Grid::from_str(".\r.\n%\n");
    assert_eq!(parsed.err(), Some(GridTextError::WrongGlyph { line: 1, letter: 2 }));
}
