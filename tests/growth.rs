use metro_loop::level_history::{generate_procedural, level_from_grown};
use metro_loop::logic::constraints::count_cells;
use metro_loop::logic::generator::{grow_from, GROWTH_DRAWS};
use metro_loop::logic::grid::{get_cell, get_cell_mut, ivec2, Grid};

#[test]
fn small_grid_grows_nothing() {
    let grid = grow_from(3, 3, &vec![7; GROWTH_DRAWS]).unwrap();
    assert_eq!(count_cells(&grid), 1);
    assert!(*get_cell(&grid, 1, 1));
}

#[test]
fn cell_above_root_is_never_activated() {
    let grid = grow_from(7, 8, &vec![0; GROWTH_DRAWS]).unwrap();
    assert_eq!(grid.root, ivec2(4, 3));
    assert_eq!(count_cells(&grid), 1);
    assert!(!*get_cell(&grid, 2, 4));
}

#[test]
fn growth_follows_the_drawn_direction() {
    let mut draws = vec![0; GROWTH_DRAWS];
    draws[0] = 1;
    draws[1] = 1;
    let grid = grow_from(7, 8, &draws).unwrap();
    assert!(*get_cell(&grid, 3, 5));
    assert!(*get_cell(&grid, 3, 6));
    assert!(*get_cell(&grid, 2, 6));
    assert!(*get_cell(&grid, 1, 6));
    assert_eq!(count_cells(&grid), 5);
}

#[test]
fn root_only_grid_becomes_a_level() {
    let grown = grow_from(5, 5, &vec![0; GROWTH_DRAWS]).unwrap();
    let level = level_from_grown(grown).unwrap();
    assert_eq!(level.solution.total_rails, 4);
    assert_eq!(level.solution.reachable_rails_count, 4);
    assert_eq!(level.constraints.cell_count, 1);
    assert_eq!(count_cells(&level.initial_grid), 1);
}

#[test]
fn split_grid_is_refused_as_a_level() {
    let mut grown = Grid::new(5, 6, ivec2(3, 2));
    *get_cell_mut(&mut grown, 2, 1) = true;
    assert!(level_from_grown(grown).is_none());
}

#[test]
fn smallest_sizes_always_give_a_level() {
    for (rows, columns) in [(3, 3), (3, 4), (3, 5), (4, 3), (5, 3)] {
        let level = generate_procedural(rows, columns).unwrap();
        assert_eq!(count_cells(&level.solution), 1);
    }
}
