use metro_loop::logic::generator::{accepts_candidate, generate_grid, neighbour};
use metro_loop::logic::grid::{count_neighbours, get_cell, get_cell_mut, in_range, ivec2, Grid};
use metro_loop::logic::intersection::{crossing_to_char, Crossing, Direction, Intersection};
use metro_loop::logic::rails::{Horizontal, Vertical};
use metro_loop::logic::text::rails_to_string;
use metro_loop::logic::trace::TraceFault;

#[test]
fn recalculating_twice_changes_nothing() {
    let mut grid = Grid::new(4, 4, ivec2(2, 2));
    *get_cell_mut(&mut grid, 1, 1) = true;
    grid.recalculate_rails().unwrap();
    let picture = rails_to_string(&grid);
    let reach = grid.reachable_rails.clone();
    let count = grid.reachable_rails_count;
    grid.recalculate_rails().unwrap();
    assert_eq!(rails_to_string(&grid), picture);
    assert_eq!(grid.reachable_rails.horizontal, reach.horizontal);
    assert_eq!(grid.reachable_rails.vertical, reach.vertical);
    assert_eq!(grid.reachable_rails_count, count);
}

#[test]
fn single_cell_loop_reaches_all_four_rails() {
    let mut grid = Grid::new(3, 3, ivec2(1, 1));
    grid.recalculate_rails().unwrap();
    assert_eq!(grid.total_rails, 4);
    assert_eq!(grid.reachable_rails_count, 4);
    assert_eq!(grid.rails.get_horiz(1, 1), Horizontal::Right);
    assert_eq!(grid.rails.get_vert(1, 2), Vertical::Bottom);
    assert_eq!(grid.intersections.get(1, 1), Intersection::new(Crossing::Single));
}

#[test]
fn inactive_root_has_no_rail() {
    let mut grid = Grid::new(3, 3, ivec2(1, 1));
    *get_cell_mut(&mut grid, 1, 1) = false;
    assert_eq!(grid.recalculate_rails(), Err(TraceFault::CenterRail));
    assert_eq!(grid.reachable_rails_count, 0);
}

#[test]
fn diagonal_vertex_is_classified() {
    let mut grid = Grid::new(4, 4, ivec2(2, 2));
    *get_cell_mut(&mut grid, 1, 1) = true;
    grid.derive_rails();
    assert_eq!(grid.intersections.get(2, 2).crossing, Crossing::TopRightToBottomLeft);
    assert_eq!(grid.intersections.get(0, 0).crossing, Crossing::Empty);
    assert_eq!(crossing_to_char(grid.intersections.get(2, 2)), '/');
    assert_eq!(grid.total_rails, 8);
}

#[test]
fn neighbours_and_ranges() {
    let mut grid = Grid::new(5, 5, ivec2(2, 2));
    *get_cell_mut(&mut grid, 1, 2) = true;
    assert_eq!(count_neighbours(&grid, 2, 2), 1);
    assert_eq!(count_neighbours(&grid, 1, 1), 1);
    assert!(in_range(&grid, 1, 3));
    assert!(!in_range(&grid, 0, 3));
    assert!(!in_range(&grid, 2, 4));
    assert!(*get_cell(&grid, 1, 2));
}

#[test]
fn neighbour_directions() {
    assert_eq!(neighbour(5, 5, 0), (4, 5));
    assert_eq!(neighbour(5, 5, 1), (5, 6));
    assert_eq!(neighbour(5, 5, 2), (6, 5));
    assert_eq!(neighbour(5, 5, 3), (5, 4));
    assert_eq!(neighbour(5, 5, 12), (4, 4));
    assert_eq!(neighbour(5, 5, 7), (6, 4));
}

#[test]
fn candidates_are_accepted_by_the_rules() {
    let mut grid = Grid::new(6, 6, ivec2(3, 3));
    *get_cell_mut(&mut grid, 3, 2) = true;
    *get_cell_mut(&mut grid, 2, 3) = true;
    assert!(accepts_candidate(&grid, 2, 2, 1));
    assert!(!accepts_candidate(&grid, 3, 3, 1));
    assert!(accepts_candidate(&grid, 3, 3, 51));
    assert!(!accepts_candidate(&grid, 0, 2, 99));
    *get_cell_mut(&mut grid, 1, 2) = true;
    assert!(!accepts_candidate(&grid, 2, 2, 1));
}

#[test]
fn grown_grid_stays_inside_the_border() {
    let grid = generate_grid(7, 8).unwrap();
    assert_eq!(grid.root, ivec2(4, 3));
    assert!(*get_cell(&grid, 3, 4));
    assert!(!*get_cell(&grid, 2, 4));
    for row in 0..7 {
        for column in 0..8 {
            if row == 0 || row == 6 || column == 0 || column == 7 {
                assert!(!*get_cell(&grid, row, column));
            }
        }
    }
}

#[test]
fn direction_inverts() {
    assert_eq!(Direction::Inwards.invert(), Direction::Outwards);
    assert_eq!(Direction::Absent.invert(), Direction::Absent);
    assert_eq!(Direction::from(Horizontal::Right), Direction::Outwards);
    assert_eq!(Direction::from(Vertical::Top), Direction::Inwards);
    assert_eq!(Horizontal::Left.opposite(), Horizontal::Right);
    assert_eq!(Vertical::Center.opposite(), Vertical::Center);
}

#[test]
fn pairs_split_in_order() {
    let (firsts, seconds) = metro_loop::tuples::split_tuple([(1, 'a'), (2, 'b'), (3, 'c')]);
    assert_eq!(firsts, [1, 2, 3]);
    assert_eq!(seconds, ['a', 'b', 'c']);
}

#[test]
fn crossing_field_text() {
    let mut grid = Grid::new(3, 3, ivec2(1, 1));
    grid.recalculate_rails().unwrap();
    assert_eq!(
        metro_loop::logic::text::inter_to_string(&grid),
        "••••\n•oo•\n•oo•\n••••\n"
    );
}

#[test]
fn rail_fields_have_edge_shapes() {
    let mut grid = Grid::new(3, 4, ivec2(1, 1));
    assert_eq!(grid.rows(), 3);
    assert_eq!(grid.columns(), 4);
    assert_eq!(grid.rails.horiz_rows(), 4);
    assert_eq!(grid.rails.horiz_columns(), 4);
    assert_eq!(grid.rails.vert_rows(), 3);
    assert_eq!(grid.rails.vert_columns(), 5);
    assert_eq!(grid.intersections.rows(), 4);
    assert_eq!(grid.intersections.columns(), 5);
    *grid.rails.get_horiz_mut(2, 1) = Horizontal::Left;
    *grid.rails.get_vert_mut(0, 4) = Vertical::Top;
    grid.intersections.get_mut(3, 3).crossing = Crossing::Single;
    assert_eq!(grid.rails.get_horiz(2, 1), Horizontal::Left);
    assert_eq!(grid.rails.get_vert(0, 4), Vertical::Top);
    assert_eq!(grid.intersections.get(3, 3).crossing, Crossing::Single);
    assert_eq!(metro_loop::logic::text::grid_to_string(&grid), grid.to_string());
}
