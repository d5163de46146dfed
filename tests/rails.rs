use metro_loop::logic::grid::{get_cell_mut, ivec2, Grid};
use metro_loop::logic::intersection::{Crossing, Intersection};
use metro_loop::logic::text::rails_to_string;

#[test]
fn grid_test_recalculate_rails_to_top_left() {
    let mut grid = Grid::new(4, 4, ivec2(2, 2));
    *get_cell_mut(&mut grid, 1, 1) = true;
    grid.recalculate_rails().unwrap();
    let crossing = grid.intersections.get(2, 2);
    assert_eq!(crossing, Intersection::new(Crossing::VerticalOnTop));
    assert_eq!(
        rails_to_string(&grid),
        r#"
•-•-•-•-•
| | | | |
•-o<o-•-•
| v ^ | |
•-o>">o-•
| | ^ v |
•-•-o<o-•
| | | | |
•-•-•-•-•
"#
        .trim_start_matches('\n')
    );
}

#[test]
fn grid_test_recalculate_rails_to_top_right() {
    let mut grid = Grid::new(4, 4, ivec2(1, 2));
    *get_cell_mut(&mut grid, 1, 2) = true;
    grid.recalculate_rails().unwrap();
    let crossing = grid.intersections.get(2, 2);
    assert_eq!(crossing, Intersection::new(Crossing::HorizontalOnTop));
    assert_eq!(
        rails_to_string(&grid),
        r#"
•-•-•-•-•
| | | | |
•-•-o<o-•
| | v ^ |
•-o>=>o-•
| ^ v | |
•-o<o-•-•
| | | | |
•-•-•-•-•
"#
        .trim_start_matches('\n')
    );
}

#[test]
fn grid_test_recalculate_rails_to_bottom_left() {
    let mut grid = Grid::new(4, 4, ivec2(2, 1));
    *get_cell_mut(&mut grid, 2, 1) = true;
    grid.recalculate_rails().unwrap();
    let crossing = grid.intersections.get(2, 2);
    assert_eq!(crossing, Intersection::new(Crossing::HorizontalOnTop));
    assert_eq!(
        rails_to_string(&grid),
        r#"
•-•-•-•-•
| | | | |
•-•-o>o-•
| | ^ v |
•-o<=<o-•
| v ^ | |
•-o>o-•-•
| | | | |
•-•-•-•-•
"#
        .trim_start_matches('\n')
    );
}

#[test]
fn grid_test_recalculate_rails_to_bottom_right() {
    let mut grid = Grid::new(4, 4, ivec2(1, 1));
    *get_cell_mut(&mut grid, 2, 2) = true;
    grid.recalculate_rails().unwrap();
    let crossing = grid.intersections.get(2, 2);
    assert_eq!(crossing, Intersection::new(Crossing::VerticalOnTop));
    assert_eq!(
        rails_to_string(&grid),
        r#"
•-•-•-•-•
| | | | |
•-o>o-•-•
| ^ v | |
•-o<"<o-•
| | v ^ |
•-•-o>o-•
| | | | |
•-•-•-•-•
"#
        .trim_start_matches('\n')
    );
}

#[test]
fn grid_test_recalculate_rails_diagonal() {
    let mut grid = Grid::new(4, 5, ivec2(1, 1));
    *get_cell_mut(&mut grid, 2, 2) = true;
    *get_cell_mut(&mut grid, 2, 3) = true;
    grid.recalculate_rails().unwrap();
}

#[test]
fn grid_test_recalculate_rails_below() {
    let mut grid = Grid::new(4, 3, ivec2(1, 1));
    *get_cell_mut(&mut grid, 2, 1) = true;
    grid.recalculate_rails().unwrap();
}
