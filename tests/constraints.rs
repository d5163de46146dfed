use metro_loop::logic::constraints::{
    choose_constraints, choose_constraints_from, compute_satisfaction, count_cells,
    count_unreachable_rails, matches_constraint, matches_constraint_and_reachable, RailCoord,
    Reverse, Satisfaction,
};
use metro_loop::logic::grid::{get_cell_mut, ivec2, Grid};
use metro_loop::logic::rails::{Horizontal, Rails, Vertical};

fn square_loop() -> Grid {
    let mut grid = Grid::new(5, 5, ivec2(2, 2));
    *get_cell_mut(&mut grid, 2, 3) = true;
    *get_cell_mut(&mut grid, 3, 2) = true;
    *get_cell_mut(&mut grid, 3, 3) = true;
    grid.recalculate_rails().unwrap();
    grid
}

#[test]
fn success_needs_all_three_counts_zero() {
    let ok = Satisfaction { failing_rails: 0, cell_diff: 0, unconnected_loops: 1, unreachable_rails: 0 };
    assert!(ok.success());
    assert!(!Satisfaction { failing_rails: 1, ..ok }.success());
    assert!(!Satisfaction { cell_diff: -1, ..ok }.success());
    assert!(!Satisfaction { unreachable_rails: 2, ..ok }.success());
}

#[test]
fn root_clue_comes_first_and_all_clues_match() {
    let grid = square_loop();
    let constraints = choose_constraints(&grid);
    assert_eq!(
        constraints.rails[0],
        RailCoord::Horizontal { row: 2, column: 2, direction: Horizontal::Right }
    );
    for clue in &constraints.rails {
        assert!(matches_constraint(&grid, clue));
    }
    assert_eq!(constraints.cell_count, 4);
    assert!(compute_satisfaction(&grid, &constraints).success());
}

#[test]
fn draws_pick_exactly_the_low_ones() {
    let grid = square_loop();
    let mut draws = Rails::new(5, 5, 99u32, 99u32);
    draws.vertical[2][3] = 129;
    draws.vertical[1][2] = 130;
    draws.horizontal[4][3] = 29;
    draws.horizontal[2][2] = 0;
    let constraints = choose_constraints_from(&grid, &draws);
    assert_eq!(
        constraints.rails,
        vec![
            RailCoord::Horizontal { row: 2, column: 2, direction: Horizontal::Right },
            RailCoord::Horizontal { row: 4, column: 3, direction: Horizontal::Left },
            RailCoord::Vertical { row: 2, column: 3, direction: Vertical::Center },
        ]
    );
}

#[test]
fn satisfaction_counts_failures_and_cells() {
    let solution = square_loop();
    let constraints = choose_constraints(&solution);
    let mut start = Grid::new(5, 5, ivec2(2, 2));
    start.recalculate_rails().unwrap();
    let satisfaction = compute_satisfaction(&start, &constraints);
    assert_eq!(satisfaction.cell_diff, 3);
    assert_eq!(satisfaction.unreachable_rails, 0);
    assert_eq!(count_cells(&start), 1);
}

#[test]
fn separate_regions_leave_rails_unreachable() {
    let mut grid = Grid::new(5, 6, ivec2(1, 2));
    *get_cell_mut(&mut grid, 2, 4) = true;
    grid.recalculate_rails().unwrap();
    assert_eq!(grid.total_rails, 8);
    assert_eq!(grid.reachable_rails_count, 4);
    assert_eq!(count_unreachable_rails(&grid), 4);
}

#[test]
fn clue_outside_the_grid_never_matches() {
    let grid = square_loop();
    let clue = RailCoord::Vertical { row: 9, column: 1, direction: Vertical::Center };
    assert!(!matches_constraint(&grid, &clue));
}

#[test]
fn reachable_match_reports_rail_orientation() {
    let grid = square_loop();
    let clue = RailCoord::Horizontal { row: 2, column: 2, direction: Horizontal::Right };
    let (matched, reverse) = matches_constraint_and_reachable(&grid, &clue);
    assert!(matched);
    assert_eq!(reverse, Reverse::Regular);
    assert!(!reverse.is_reverse());
    let center = RailCoord::Vertical { row: 1, column: 1, direction: Vertical::Center };
    assert_eq!(matches_constraint_and_reachable(&grid, &center), (true, Reverse::Neutral));
    assert_eq!(Reverse::from(Vertical::Top), Reverse::Reverse);
}
