use metro_loop::level_history::{generate_procedural, GameTrack, LevelHistory};
use metro_loop::levels::{level_glyph, raw_levels, Level, LevelGlyph, Levels, FIRST_LEVEL};
use metro_loop::logic::constraints::{compute_satisfaction, RailCoord, Satisfaction};
use metro_loop::logic::rails::{Horizontal, Vertical};
use metro_loop::logic::text::GridTextError;

#[test]
fn basic_level() {
    let raw_level = raw_levels().sections[0].levels[0];
    let level = Level::from_str(raw_level).unwrap();
    assert_eq!(
        level.initial_grid.to_string(),
        r#"......
.    .
. .  .
.O%  .
.    .
......
"#
    );
    assert_eq!(
        level.solution.to_string(),
        r#"......
.    .
. .  .
. %O .
.    .
......
"#
    );
    assert_eq!(
        compute_satisfaction(&level.solution, &level.constraints).success(),
        true
    );
    assert_eq!(
        compute_satisfaction(&level.initial_grid, &level.constraints),
        Satisfaction {
            failing_rails: 8,
            cell_diff: 0,
            unconnected_loops: 1,
            unreachable_rails: 0,
        }
    );
}

#[test]
fn roundtrip() {
    let raw_level = raw_levels().sections[0].levels[0];
    let level = Level::from_str(raw_level).unwrap();
    let serialized = level.to_string();
    assert_eq!(serialized, raw_level);
}

#[test]
fn level_clues_and_count_are_read() {
    let level = Level::from_str(FIRST_LEVEL).unwrap();
    assert_eq!(level.constraints.cell_count, 2);
    assert_eq!(level.constraints.rails.len(), 10);
    assert_eq!(
        level.constraints.rails[0],
        RailCoord::Horizontal { row: 3, column: 1, direction: Horizontal::Center }
    );
    assert_eq!(
        level.constraints.rails[3],
        RailCoord::Vertical { row: 3, column: 1, direction: Vertical::Center }
    );
}

#[test]
fn level_glyphs_are_classified() {
    assert_eq!(level_glyph('*'), LevelGlyph::Cell { is_root: false, cell: false, fixed: false, solution: true });
    assert_eq!(level_glyph('?'), LevelGlyph::Cell { is_root: false, cell: true, fixed: false, solution: false });
    assert_eq!(level_glyph('^'), LevelGlyph::VerticalClue(Vertical::Top));
    assert_eq!(level_glyph('"'), LevelGlyph::HorizontalClue(Horizontal::Center));
    assert_eq!(level_glyph(' '), LevelGlyph::Blank);
    assert_eq!(level_glyph('#'), LevelGlyph::Wrong);
}

#[test]
fn level_with_wrong_glyph_is_refused() {
    let parsed = Level::from_str(". . .\n. # .\n");
    assert_eq!(parsed.err(), Some(GridTextError::WrongGlyph { line: 2, letter: 3 }));
}

#[test]
fn level_without_root_is_refused() {
    let parsed = Level::from_str(". . .\n. x .\n");
    assert_eq!(parsed.err(), Some(GridTextError::MissingRoot));
}

#[test]
fn long_single_row_level_is_read() {
    let mut text = String::from("%");
    for _ in 0..10000 {
        text.push_str(" x");
    }
    let level = Level::from_str(&text).unwrap();
    assert_eq!(level.initial_grid.num_rows, 1);
    assert_eq!(level.initial_grid.num_columns, 10001);
}

#[test]
fn campaign_levels_load() {
    let levels = Levels::get().unwrap();
    assert_eq!(levels.sections.len(), 1);
    assert_eq!(levels.sections[0].levels.len(), 1);
}

#[test]
fn history_moves_to_procedural_when_all_solved() {
    let mut history = LevelHistory::new(0, 0).unwrap();
    assert!(history.get_current().is_some());
    history.solved();
    assert_eq!(history.solved, vec![vec![true]]);
    history.next();
    assert_eq!(history.current, GameTrack::Procedural);
    assert!(history.current.is_procedural());
    assert!(history.get_current().is_none());
}

#[test]
fn history_goes_back_to_unsolved_level() {
    let mut history = LevelHistory::new(0, -1).unwrap();
    assert!(history.get_current().is_none());
    history.solved();
    assert_eq!(history.solved, vec![vec![false]]);
    history.next();
    assert_eq!(history.current, GameTrack::Campaign { section: 0, level: 0 });
}

#[test]
fn procedural_level_is_solved_by_its_solution() {
    let level = generate_procedural(8, 9).unwrap();
    assert_eq!(level.solution.num_rows, 8);
    assert_eq!(level.solution.num_columns, 9);
    assert_eq!(level.solution.root.x, 4);
    assert_eq!(level.solution.root.y, 4);
    assert_eq!(level.solution.total_rails, level.solution.reachable_rails_count);
    assert!(compute_satisfaction(&level.solution, &level.constraints).success());
    let start = compute_satisfaction(&level.initial_grid, &level.constraints);
    assert_eq!(start.cell_diff, level.constraints.cell_count - 1);
}

#[test]
fn level_with_crlf_line_endings_reads() {
    let crlf = FIRST_LEVEL.replace('\n', "\r\n");
    let level = Level::from_str(&crlf).unwrap();
    assert_eq!(level.to_string(), FIRST_LEVEL);
}
