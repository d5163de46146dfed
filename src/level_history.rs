use crate::levels::{parse_level, read_from, Level, LevelParts, Levels, FIRST_LEVEL};
use crate::logic::constraints::{choose_constraints, count_unreachable_rails, taken_from};
use crate::logic::generator::{generate_grid, generated_root, growth_order, is_grown, lemma_root_only_loop, max_cells, root_only};
use crate::logic::grid::{rail_sum, Grid};
use crate::logic::generator::MAX_SIDE;
use crate::logic::trace::trace_of;
use crate::logic::text::GridTextError;
use vstd::prelude::*;

verus! {

/// Most sections of a campaign, and most levels of a section.
pub const MAX_LEVELS: i32 = 10000;

/// Most candidate grids that one procedural level may try.
pub const GENERATION_ATTEMPTS: u32 = 1000;

/// The level being played: one of the campaign, or a generated one.
#[derive(Debug, Copy, Clone, PartialEq, Eq, Structural)]
pub enum GameTrack {
    Campaign { section: i32, level: i32 },
    Procedural,
}

impl GameTrack {
    pub fn is_procedural(&self) -> (r: bool)
        ensures
            r == (*self is Procedural),
    {
        match self {
            GameTrack::Campaign { .. } => false,
            GameTrack::Procedural => true,
        }
    }
}

/// The campaign, the level being played and which levels are solved.
pub struct LevelHistory {
    pub current: GameTrack,
    pub levels: Levels,
    pub solved: Vec<Vec<bool>>,
}

/// The first unsolved level at or after level `l` of section `s`, in
/// campaign order.
pub open spec fn next_unsolved(solved: Seq<Seq<bool>>, s: int, l: int) -> Option<(int, int)>
    decreases solved.len() - s, (if 0 <= s < solved.len() { solved[s].len() - l } else { 0 }),
{
    if s < 0 || s >= solved.len() {
        None
    } else if l < 0 || l >= solved[s].len() {
        next_unsolved(solved, s + 1, 0)
    } else if !solved[s][l] {
        Some((s, l))
    } else {
        next_unsolved(solved, s, l + 1)
    }
}

impl LevelHistory {
    pub open spec fn solved_view(&self) -> Seq<Seq<bool>> {
        Seq::new(self.solved@.len(), |i: int| self.solved@[i]@)
    }

    /// One solved flag per level of each section.
    pub open spec fn wf(&self) -> bool {
        &&& self.solved@.len() == self.levels.sections@.len()
        &&& forall|i: int| 0 <= i < self.solved@.len() ==> (#[trigger] self.solved@[i])@.len() == self.levels.sections@[i].levels@.len()
        &&& self.levels.sections@.len() <= MAX_LEVELS
        &&& forall|i: int| 0 <= i < self.solved@.len() ==> (#[trigger] self.solved@[i])@.len() <= MAX_LEVELS
    }

    /// Starts the campaign at the given level, nothing solved.
    pub fn new(section: i32, level: i32) -> (r: Result<Self, GridTextError>)
        ensures
            r matches Ok(h) ==> h.wf() && h.current == (GameTrack::Campaign { section, level })
                && forall|i: int, j: int| 0 <= i < h.solved@.len() && 0 <= j < h.solved@[i]@.len() ==> !#[trigger] h.solved@[i]@[j],
            r matches Ok(h) ==> h.levels.sections@.len() == 1 && h.levels.sections@[0].levels@.len() == 1
                && read_from(h.levels.sections@[0].levels@[0], FIRST_LEVEL@),
            r matches Err(e) ==> parse_level(FIRST_LEVEL@) == Err::<LevelParts, GridTextError>(e),
    {
        let levels = match Levels::get() {
            Ok(levels) => levels,
            Err(e) => {
                return Err(e);
            },
        };
        let mut solved: Vec<Vec<bool>> = Vec::new();
        let mut i: usize = 0;
        while i < levels.sections.len()
            invariant
                i <= levels.sections@.len(),
                levels.sections@.len() == 1,
                levels.sections@[0].levels@.len() == 1,
                solved@.len() == i,
                forall|k: int| 0 <= k < i ==> (#[trigger] solved@[k])@.len() == levels.sections@[k].levels@.len(),
                forall|k: int, j: int| 0 <= k < i && 0 <= j < solved@[k]@.len() ==> !#[trigger] solved@[k]@[j],
            decreases levels.sections@.len() - i,
        {
            let n = levels.sections[i].levels.len();
            let mut row: Vec<bool> = Vec::new();
            let mut j: usize = 0;
            while j < n
                invariant
                    j <= n,
                    row@.len() == j,
                    forall|k: int| 0 <= k < j ==> !#[trigger] row@[k],
                decreases n - j,
            {
                row.push(false);
                j += 1;
            }
            solved.push(row);
            i += 1;
        }
        Ok(Self { current: GameTrack::Campaign { section, level }, levels, solved })
    }

    /// The campaign level being played, when the track is the campaign and
    /// names an existing level.
    pub fn get_current(&self) -> (r: Option<&Level>)
        ensures
            r is Some <==> (self.current matches GameTrack::Campaign { section, level } && 0 <= section < self.levels.sections@.len()
                && 0 <= level < self.levels.sections@[section as int].levels@.len()),
            r matches Some(l) ==> (self.current matches GameTrack::Campaign { section, level }
                && *l == self.levels.sections@[section as int].levels@[level as int]),
    {
        match self.current {
            GameTrack::Campaign { section, level } => {
                if section < 0 || level < 0 || section as usize >= self.levels.sections.len()
                    || level as usize >= self.levels.sections[section as usize].levels.len() {
                    None
                } else {
                    Some(&self.levels.sections[section as usize].levels[level as usize])
                }
            },
            GameTrack::Procedural => None,
        }
    }

    /// Moves to the first unsolved campaign level after the current one, or
    /// to procedural levels when none is left.
    pub fn next(&mut self)
        requires
            old(self).wf(),
        ensures
            final(self).wf(),
            final(self).solved == old(self).solved,
            final(self).levels == old(self).levels,
            final(self).current == (match old(self).current {
                GameTrack::Campaign { section, level } => match next_unsolved(old(self).solved_view(), section as int, level + 1) {
                    Some((s, l)) => GameTrack::Campaign { section: s as i32, level: l as i32 },
                    None => GameTrack::Procedural,
                },
                GameTrack::Procedural => GameTrack::Procedural,
            }),
    {
        match self.current {
            GameTrack::Campaign { section, level } => {
                let ghost solved = self.solved_view();
                if section < 0 {
                    self.current = GameTrack::Procedural;
                    return;
                }
                let mut s = section as usize;
                let start: i64 = level as i64 + 1;
                let mut l: usize = 0;
                if start < 0 {
                    s = s + 1;
                } else {
                    l = start as usize;
                }
                assert(next_unsolved(solved, section as int, level + 1) == next_unsolved(solved, s as int, l as int));
                while s < self.solved.len()
                    invariant
                        self.wf(),
                        solved == self.solved_view(),
                        s >= section,
                        next_unsolved(solved, section as int, level + 1) == next_unsolved(solved, s as int, l as int),
                        self.current == old(self).current,
                        old(self).current == (GameTrack::Campaign { section, level }),
                        solved == old(self).solved_view(),
                        self.solved == old(self).solved,
                        self.levels == old(self).levels,
                    decreases self.solved@.len() - s, (if s < self.solved@.len() { self.solved@[s as int]@.len() as int - l } else { 0 }),
                {
                    if l < self.solved[s].len() {
                        if !self.solved[s][l] {
                            assert(solved[s as int][l as int] == self.solved@[s as int]@[l as int]);
                            self.current = GameTrack::Campaign { section: s as i32, level: l as i32 };
                            return;
                        }
                        l += 1;
                    } else {
                        s += 1;
                        l = 0;
                    }
                }
                self.current = GameTrack::Procedural;
            },
            GameTrack::Procedural => {},
        }
    }

    /// Marks the current campaign level as solved; nothing happens on
    /// procedural levels or when the track names no level.
    pub fn solved(&mut self)
        requires
            old(self).wf(),
        ensures
            final(self).wf(),
            final(self).current == old(self).current,
            final(self).levels == old(self).levels,
            final(self).solved_view() == (match old(self).current {
                GameTrack::Campaign { section, level } => if 0 <= section < old(self).solved@.len()
                    && 0 <= level < old(self).solved@[section as int]@.len() {
                    old(self).solved_view().update(section as int, old(self).solved_view()[section as int].update(level as int, true))
                } else {
                    old(self).solved_view()
                },
                GameTrack::Procedural => old(self).solved_view(),
            }),
    {
        match self.current {
            GameTrack::Campaign { section, level } => {
                if section >= 0 && level >= 0 && (section as usize) < self.solved.len()
                    && (level as usize) < self.solved[section as usize].len() {
                    let ghost before = self.solved_view();
                    self.solved[section as usize][level as usize] = true;
                    assert(self.solved_view() =~~= before.update(section as int, before[section as int].update(level as int, true)));
                }
            },
            GameTrack::Procedural => {},
        }
    }
}

/// A level from a grown grid, when its loop closes and reaches every rail:
/// the grid recalculated as solution, clues taken from it, and an empty grid
/// of the same size and root to start from.
pub fn level_from_grown(grown: Grid) -> (r: Option<Level>)
    requires
        3 <= grown.num_rows,
        3 <= grown.num_columns,
        is_grown(grown, grown.num_rows as int, grown.num_columns as int),
    ensures
        r is Some <==> (trace_of(grown.cells_view(), grown.num_rows as int, grown.num_columns as int, grown.root.y as int, grown.root.x as int)
            matches Ok((t, n)) && n == rail_sum(grown.cells_view(), grown.num_rows as int, grown.num_columns as int)),
        r matches Some(level) ==> is_solved_level(level, grown),
{
    let rows = grown.num_rows;
    let columns = grown.num_columns;
    let mut solution = grown;
    let traced = solution.recalculate_rails();
    if traced.is_err() || count_unreachable_rails(&solution) != 0 {
        return None;
    }
    let root = solution.root;
    let mut grid = Grid::new(rows, columns, root);
    let _ = grid.recalculate_rails();
    let constraints = choose_constraints(&solution);
    Some(Level { initial_grid: grid, constraints, solution })
}

/// The level that `level_from_grown` makes of `grown`: the solution is
/// `grown` recalculated, with every rail reached; the clues are taken from
/// it; the initial grid has only the root active, with a new grid's locks,
/// and is recalculated.
pub open spec fn is_solved_level(level: Level, grown: Grid) -> bool {
    let rows = grown.num_rows as int;
    let columns = grown.num_columns as int;
    let root = grown.root;
    &&& level.solution.is_recalculated()
    &&& level.solution.num_rows == grown.num_rows
    &&& level.solution.num_columns == grown.num_columns
    &&& level.solution.cells == grown.cells
    &&& level.solution.fixed_cells == grown.fixed_cells
    &&& level.solution.root == root
    &&& level.solution.total_rails == level.solution.reachable_rails_count
    &&& taken_from(level.constraints, level.solution)
    &&& level.initial_grid.is_recalculated()
    &&& level.initial_grid.num_rows == grown.num_rows
    &&& level.initial_grid.num_columns == grown.num_columns
    &&& level.initial_grid.root == root
    &&& forall|i: int, j: int| 0 <= i < rows && 0 <= j < columns
        ==> #[trigger] level.initial_grid.cells@[i]@[j] == (i == root.y && j == root.x)
    &&& forall|i: int, j: int| 0 <= i < rows && 0 <= j < columns
        ==> #[trigger] level.initial_grid.fixed_cells@[i]@[j] == (i == 0 || i == rows - 1 || j == 0 || j == columns - 1
            || (j == root.x && (i == root.y || i == root.y - 1)))
}

/// A generated level of the given size: up to `GENERATION_ATTEMPTS` grids
/// are grown, and the first one whose loop reaches every rail becomes the
/// level. `None` when no attempt gives one.
pub fn generate_procedural(num_rows: i32, num_columns: i32) -> (r: Option<Level>)
    requires
        3 <= num_rows <= MAX_SIDE,
        3 <= num_columns <= MAX_SIDE,
    ensures
        max_cells(num_rows as int, num_columns as int) <= 1 ==> r is Some,
        r matches Some(level) ==> exists|grown: Grid| is_grown(grown, num_rows as int, num_columns as int)
            && #[trigger] is_solved_level(level, grown),
{
    let ghost rows = num_rows as int;
    let ghost columns = num_columns as int;
    let mut attempts: u32 = 0;
    while attempts < GENERATION_ATTEMPTS
        invariant
            rows == num_rows,
            columns == num_columns,
            3 <= num_rows <= MAX_SIDE,
            3 <= num_columns <= MAX_SIDE,
            max_cells(rows, columns) <= 1 ==> attempts == 0,
        decreases GENERATION_ATTEMPTS - attempts,
    {
        attempts += 1;
        if let Some(grown) = generate_grid(num_rows, num_columns) {
            let ghost kept = grown;
            proof {
                if max_cells(rows, columns) <= 1 {
                    lemma_grown_root_only(kept, rows, columns);
                    lemma_root_only_loop(rows, columns);
                }
            }
            if let Some(level) = level_from_grown(grown) {
                assert(is_grown(kept, num_rows as int, num_columns as int) && is_solved_level(level, kept));
                return Some(level);
            }
        }
    }
    None
}

/// A grown grid that took at most one cell holds the root alone.
proof fn lemma_grown_root_only(g: Grid, rows: int, columns: int)
    requires
        3 <= rows <= MAX_SIDE,
        3 <= columns <= MAX_SIDE,
        is_grown(g, rows, columns),
        exists|order: Seq<(i32, i32)>| growth_order(g.cells_view(), rows, columns, order) && #[trigger] order.len() <= 1,
    ensures
        g.cells_view() == root_only(rows, columns),
{
    let order = choose|order: Seq<(i32, i32)>| growth_order(g.cells_view(), rows, columns, order) && #[trigger] order.len() <= 1;
    let root = generated_root(rows, columns);
    assert forall|i: int, j: int| 0 <= i < rows && 0 <= j < columns implies g.cells_view()[i][j] == root_only(rows, columns)[i][j] by {
        if g.cells_view()[i][j] {
            let k = choose|k: int| 0 <= k < order.len() && order[k] == (i as i32, j as i32);
            assert(k == 0);
        }
    }
    assert(g.cells_view() =~~= root_only(rows, columns));
}

} // verus!
