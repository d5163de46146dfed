use metro_loop::logic::constraints::count_loops;
use metro_loop::logic::grid::{ivec2, Cell, Grid};
use metro_loop::logic::intersection::Intersections;
use metro_loop::logic::rails::{Horizontal, Rails, Vertical};

fn mock_grid(cells: Vec<Vec<Cell>>) -> Grid {
    let rails = Rails::new(0, 0, Horizontal::Center, Vertical::Center);
    let reachable_rails = Rails::new(0, 0, false, false);
    let fixed_rails = Rails::new(0, 0, false, false);
    let root = ivec2(0, 0);
    let intersections = Intersections::new(0, 0);
    let fixed_cells = cells.clone();
    Grid {
        num_rows: cells.len() as i32,
        num_columns: cells.first().unwrap().len() as i32,
        cells,
        fixed_cells,
        rails,
        reachable_rails,
        fixed_rails,
        root,
        intersections,
        total_rails: 0,
        reachable_rails_count: 0,
    }
}
const CLICK: bool = true;

#[test]
fn constraints_test_count_loops_none() {
    let grid = mock_grid(vec![
        vec![false, false, false],
        vec![false, false, false],
        vec![false, false, false],
    ]);
    let loops = count_loops(&grid);
    assert_eq!(loops, 0);
}

#[test]
fn constraints_test_count_loops_one() {
    let grid = mock_grid(vec![
        vec![false, false, false],
        vec![false, CLICK, false],
        vec![false, false, false],
    ]);
    let loops = count_loops(&grid);
    assert_eq!(loops, 1);
}

#[test]
fn constraints_test_count_loops_two() {
    let grid = mock_grid(vec![
        vec![false, false, false, false, false],
        vec![false, CLICK, false, CLICK, false],
        vec![false, false, false, false, false],
    ]);
    let loops = count_loops(&grid);
    assert_eq!(loops, 2);
}

#[test]
fn constraints_test_count_loops_border() {
    let grid = mock_grid(vec![vec![false, CLICK], vec![false, false]]);
    let loops = count_loops(&grid);
    assert_eq!(loops, 1);
}

#[test]
fn constraints_test_count_loops_border_big() {
    let grid = mock_grid(vec![vec![false, CLICK, CLICK], vec![false, false, false]]);
    let loops = count_loops(&grid);
    assert_eq!(loops, 1);
}

#[test]
fn constraints_test_count_loops_top_left() {
    let grid = mock_grid(vec![vec![CLICK, false], vec![false, false]]);
    let loops = count_loops(&grid);
    assert_eq!(loops, 1);
}

#[test]
fn constraints_test_count_loops_one_big() {
    let grid = mock_grid(vec![
        vec![false, false, CLICK, false, false],
        vec![false, CLICK, CLICK, CLICK, false],
        vec![false, CLICK, false, false, false],
    ]);
    let loops = count_loops(&grid);
    assert_eq!(loops, 1);
}

#[test]
fn constraints_test_count_loops_two_big() {
    let grid = mock_grid(vec![
        vec![false, false, CLICK, false, false],
        vec![false, CLICK, CLICK, CLICK, false],
        vec![CLICK, false, false, false, false],
    ]);
    let loops = count_loops(&grid);
    assert_eq!(loops, 2);
}

#[test]
fn constraints_test_count_loops_one_square() {
    let grid = mock_grid(vec![
        vec![false, false, false, false, false],
        vec![false, CLICK, CLICK, CLICK, false],
        vec![false, CLICK, CLICK, CLICK, false],
    ]);
    let loops = count_loops(&grid);
    assert_eq!(loops, 1);
}

#[test]
fn constraints_test_count_loops_one_donut() {
    let grid = mock_grid(vec![
        vec![false, false, false, false, false],
        vec![false, CLICK, CLICK, CLICK, false],
        vec![false, CLICK, false, CLICK, false],
        vec![false, CLICK, CLICK, CLICK, false],
    ]);
    let loops = count_loops(&grid);
    // a ring around a hole cancels out to zero in this estimate
    assert_eq!(loops, 0);
}
