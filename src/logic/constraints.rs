use crate::logic::grid::{fits, lemma_row_product, Grid, MAX_CELLS};
use crate::logic::rails::{is_matrix, Horizontal, Rails, Vertical};
use crate::logic::random::random_u32;
use vstd::prelude::*;

verus! {

/// Percentage of the rails that become clues of a generated puzzle.
pub const CLUE_PERCENTAGE: u32 = 30;

/// A clue: the direction that the rail at a position must have.
#[derive(Debug, Copy, Clone, PartialEq, Eq, Structural)]
pub enum RailCoord {
    Horizontal { row: i32, column: i32, direction: Horizontal },
    Vertical { row: i32, column: i32, direction: Vertical },
}

/// The clues of a puzzle and the number of active cells of its solution.
#[derive(Debug, Clone)]
pub struct Constraints {
    pub rails: Vec<RailCoord>,
    pub cell_count: i32,
}

/// How far a grid is from meeting its constraints; all zero means solved.
#[derive(Debug, Copy, Clone, PartialEq, Eq, Structural)]
pub struct Satisfaction {
    pub failing_rails: i32,
    pub cell_diff: i32,
    pub unconnected_loops: i32,
    pub unreachable_rails: i32,
}

impl Satisfaction {
    pub open spec fn is_success(&self) -> bool {
        self.failing_rails == 0 && self.cell_diff == 0 && self.unreachable_rails == 0
    }

    /// No failing clue, the right number of cells and every rail reachable.
    /// The loop-count diagnostic does not take part.
    pub fn success(&self) -> (r: bool)
        ensures
            r == self.is_success(),
    {
        self.failing_rails == 0 && self.cell_diff == 0 && self.unreachable_rails == 0
    }
}

impl Constraints {
    /// The counts that satisfaction computes over these constraints fit in `i32`.
    pub open spec fn wf(&self) -> bool {
        &&& 0 <= self.cell_count <= MAX_CELLS
        &&& self.rails@.len() <= i32::MAX
    }
}

/// Whether the grid's current rail at the clue's position has the clue's
/// direction; a clue outside the rails never matches.
pub open spec fn clue_matches(grid: Grid, clue: RailCoord) -> bool {
    match clue {
        RailCoord::Horizontal { row, column, direction } => 0 <= row < grid.rails.horizontal@.len()
            && 0 <= column < grid.rails.horizontal@[row as int]@.len()
            && grid.rails.horizontal@[row as int]@[column as int] == direction,
        RailCoord::Vertical { row, column, direction } => 0 <= row < grid.rails.vertical@.len()
            && 0 <= column < grid.rails.vertical@[row as int]@.len()
            && grid.rails.vertical@[row as int]@[column as int] == direction,
    }
}

/// Number of clues among the first `n` that the grid does not match.
pub open spec fn failing_count(grid: Grid, clues: Seq<RailCoord>, n: int) -> int
    decreases n,
{
    if n <= 0 {
        0
    } else {
        failing_count(grid, clues, n - 1) + (if clue_matches(grid, clues[n - 1]) { 0int } else { 1 })
    }
}

/// Number of active cells of row `r` over the columns `0..c`.
pub open spec fn active_row(cells: Seq<Seq<bool>>, r: int, c: int) -> int
    decreases c,
{
    if c <= 0 {
        0
    } else {
        active_row(cells, r, c - 1) + (if cells[r][c - 1] { 1int } else { 0 })
    }
}

/// Number of active cells over the rows `0..r`.
pub open spec fn active_count(cells: Seq<Seq<bool>>, r: int, columns: int) -> int
    decreases r,
{
    if r <= 0 {
        0
    } else {
        active_count(cells, r - 1, columns) + active_row(cells, r - 1, columns)
    }
}

/// Number of active cells of a grid.
pub open spec fn grid_active(grid: Grid) -> int {
    active_count(grid.cells_view(), grid.num_rows as int, grid.num_columns as int)
}

/// What cell `(r, c)` adds to the adjacency count: one per active neighbour
/// above or to the left, less one when the 2x2 block ending at it is full.
pub open spec fn adjacency_term(cells: Seq<Seq<bool>>, r: int, c: int) -> int {
    let current = cells[r][c];
    (if r > 0 && current && cells[r - 1][c] { 1int } else { 0 }) + (if c > 0 && current && cells[r][c - 1] {
        1int
    } else {
        0
    }) - (if r > 0 && c > 0 && current && cells[r][c - 1] && cells[r - 1][c] && cells[r - 1][c - 1] {
        1int
    } else {
        0
    })
}

pub open spec fn adjacency_row(cells: Seq<Seq<bool>>, r: int, c: int) -> int
    decreases c,
{
    if c <= 0 {
        0
    } else {
        adjacency_row(cells, r, c - 1) + adjacency_term(cells, r, c - 1)
    }
}

pub open spec fn adjacency_count(cells: Seq<Seq<bool>>, r: int, columns: int) -> int
    decreases r,
{
    if r <= 0 {
        0
    } else {
        adjacency_count(cells, r - 1, columns) + adjacency_row(cells, r - 1, columns)
    }
}

/// The Euler-style loop estimate: active cells less adjacent active pairs,
/// plus full 2x2 blocks.
pub open spec fn loop_estimate(cells: Seq<Seq<bool>>, rows: int, columns: int) -> int {
    active_count(cells, rows, columns) - adjacency_count(cells, rows, columns)
}

pub proof fn lemma_active_row_bounds(cells: Seq<Seq<bool>>, r: int, c: int)
    requires
        c >= 0,
    ensures
        0 <= active_row(cells, r, c) <= c,
    decreases c,
{
    if c > 0 {
        lemma_active_row_bounds(cells, r, c - 1);
    }
}

pub proof fn lemma_active_count_bounds(cells: Seq<Seq<bool>>, r: int, columns: int)
    requires
        r >= 0,
        columns >= 0,
    ensures
        0 <= active_count(cells, r, columns) <= r * columns,
    decreases r,
{
    if r > 0 {
        lemma_active_count_bounds(cells, r - 1, columns);
        lemma_active_row_bounds(cells, r - 1, columns);
        assert((r - 1) * columns + columns == r * columns) by (nonlinear_arith);
    }
}

pub proof fn lemma_adjacency_row_bounds(cells: Seq<Seq<bool>>, r: int, c: int)
    requires
        c >= 0,
    ensures
        -c <= adjacency_row(cells, r, c) <= 2 * c,
    decreases c,
{
    if c > 0 {
        lemma_adjacency_row_bounds(cells, r, c - 1);
    }
}

pub proof fn lemma_adjacency_count_bounds(cells: Seq<Seq<bool>>, r: int, columns: int)
    requires
        r >= 0,
        columns >= 0,
    ensures
        -(r * columns) <= adjacency_count(cells, r, columns) <= 2 * (r * columns),
    decreases r,
{
    if r > 0 {
        lemma_adjacency_count_bounds(cells, r - 1, columns);
        lemma_adjacency_row_bounds(cells, r - 1, columns);
        assert((r - 1) * columns + columns == r * columns) by (nonlinear_arith);
    }
}

proof fn lemma_active_row_update(cells: Seq<Seq<bool>>, r: int, c: int, row: int, k: int)
    requires
        0 <= r < cells.len(),
        0 <= c < cells[r].len(),
        0 <= row < cells.len(),
        0 <= k <= cells[row].len(),
    ensures
        active_row(cells.update(r, cells[r].update(c, true)), row, k) == active_row(cells, row, k) + (
        if row == r && k > c && !cells[r][c] { 1int } else { 0 }),
    decreases k,
{
    if k > 0 {
        lemma_active_row_update(cells, r, c, row, k - 1);
    }
}

/// Activating one cell raises the count by one when it was inactive.
pub proof fn lemma_active_count_update(cells: Seq<Seq<bool>>, r: int, c: int, rows: int, columns: int)
    requires
        0 <= r < cells.len(),
        0 <= c < columns,
        0 <= rows <= cells.len(),
        forall|i: int| 0 <= i < cells.len() ==> (#[trigger] cells[i]).len() == columns,
    ensures
        active_count(cells.update(r, cells[r].update(c, true)), rows, columns) == active_count(cells, rows, columns) + (
        if rows > r && !cells[r][c] { 1int } else { 0 }),
    decreases rows,
{
    if rows > 0 {
        lemma_active_count_update(cells, r, c, rows - 1, columns);
        lemma_active_row_update(cells, r, c, rows - 1, columns);
    }
}

proof fn lemma_active_row_none(cells: Seq<Seq<bool>>, row: int, k: int)
    requires
        forall|j: int| 0 <= j < k ==> !cells[row][j],
    ensures
        active_row(cells, row, k) == 0,
    decreases k,
{
    if k > 0 {
        lemma_active_row_none(cells, row, k - 1);
    }
}

/// A matrix with no active cell counts zero.
pub proof fn lemma_active_count_none(cells: Seq<Seq<bool>>, rows: int, columns: int)
    requires
        forall|i: int, j: int| 0 <= i < rows && 0 <= j < columns ==> !cells[i][j],
    ensures
        active_count(cells, rows, columns) == 0,
    decreases rows,
{
    if rows > 0 {
        lemma_active_count_none(cells, rows - 1, columns);
        lemma_active_row_none(cells, rows - 1, columns);
    }
}

/// Number of active cells of the grid.
pub fn count_cells(grid: &Grid) -> (r: i32)
    requires
        fits(grid.num_rows as int, grid.num_columns as int),
        is_matrix(grid.cells@, grid.num_rows as int, grid.num_columns as int),
    ensures
        r == grid_active(*grid),
{
    let ghost cells = grid.cells_view();
    let rows = grid.num_rows as usize;
    let columns = grid.num_columns as usize;
    let mut count: i32 = 0;
    let mut i_row: usize = 0;
    while i_row < rows
        invariant
            i_row <= rows,
            rows == grid.num_rows,
            columns == grid.num_columns,
            fits(rows as int, columns as int),
            is_matrix(grid.cells@, rows as int, columns as int),
            cells == grid.cells_view(),
            count == active_count(cells, i_row as int, columns as int),
        decreases rows - i_row,
    {
        proof {
            lemma_active_count_bounds(cells, i_row as int, columns as int);
            lemma_row_product(i_row as int, rows as int, columns as int);
        }
        let mut i_column: usize = 0;
        while i_column < columns
            invariant
                i_row < rows,
                i_column <= columns,
                rows == grid.num_rows,
                columns == grid.num_columns,
                fits(rows as int, columns as int),
                is_matrix(grid.cells@, rows as int, columns as int),
                cells == grid.cells_view(),
                0 <= active_count(cells, i_row as int, columns as int) <= i_row * columns,
                i_row * columns <= MAX_CELLS,
                count == active_count(cells, i_row as int, columns as int) + active_row(cells, i_row as int, i_column as int),
            decreases columns - i_column,
        {
            proof {
                lemma_active_row_bounds(cells, i_row as int, i_column as int);
            }
            if grid.cells[i_row][i_column] {
                count += 1;
            }
            i_column += 1;
        }
        i_row += 1;
    }
    count
}

/// Euler-style estimate of the number of loops that the active cells form:
/// active cells less adjacent active pairs, corrected for full 2x2 blocks.
/// A ring around a hole counts 0.
pub fn count_loops(grid: &Grid) -> (r: i32)
    requires
        fits(grid.num_rows as int, grid.num_columns as int),
        is_matrix(grid.cells@, grid.num_rows as int, grid.num_columns as int),
    ensures
        r == loop_estimate(grid.cells_view(), grid.num_rows as int, grid.num_columns as int),
{
    let ghost cells = grid.cells_view();
    let active = count_cells(grid);
    let rows = grid.num_rows as usize;
    let columns = grid.num_columns as usize;
    let mut adjacents: i32 = 0;
    let mut i_row: usize = 0;
    proof {
        lemma_active_count_bounds(cells, rows as int, columns as int);
        lemma_row_product(rows as int, rows as int, columns as int);
    }
    while i_row < rows
        invariant
            i_row <= rows,
            rows == grid.num_rows,
            columns == grid.num_columns,
            fits(rows as int, columns as int),
            is_matrix(grid.cells@, rows as int, columns as int),
            cells == grid.cells_view(),
            adjacents == adjacency_count(cells, i_row as int, columns as int),
        decreases rows - i_row,
    {
        proof {
            lemma_adjacency_count_bounds(cells, i_row as int, columns as int);
            lemma_row_product(i_row as int, rows as int, columns as int);
        }
        let mut i_column: usize = 0;
        while i_column < columns
            invariant
                i_row < rows,
                i_column <= columns,
                rows == grid.num_rows,
                columns == grid.num_columns,
                fits(rows as int, columns as int),
                is_matrix(grid.cells@, rows as int, columns as int),
                cells == grid.cells_view(),
                -(i_row * columns) <= adjacency_count(cells, i_row as int, columns as int) <= 2 * (i_row * columns),
                i_row * columns <= MAX_CELLS,
                adjacents == adjacency_count(cells, i_row as int, columns as int) + adjacency_row(cells, i_row as int, i_column as int),
            decreases columns - i_column,
        {
            proof {
                lemma_adjacency_row_bounds(cells, i_row as int, i_column as int);
            }
            let current = grid.cells[i_row][i_column];
            if i_row > 0 && current && grid.cells[i_row - 1][i_column] {
                adjacents += 1;
            }
            if i_column > 0 && current && grid.cells[i_row][i_column - 1] {
                adjacents += 1;
            }
            if i_row > 0 && i_column > 0 && current && grid.cells[i_row][i_column - 1] && grid.cells[i_row - 1][i_column]
                && grid.cells[i_row - 1][i_column - 1] {
                adjacents -= 1;
            }
            i_column += 1;
        }
        i_row += 1;
    }
    proof {
        lemma_adjacency_count_bounds(cells, rows as int, columns as int);
    }
    active - adjacents
}

/// Whether the grid's rail at the clue's position has the clue's direction.
pub fn matches_constraint(grid: &Grid, constraint: &RailCoord) -> (r: bool)
    ensures
        r == clue_matches(*grid, *constraint),
{
    match *constraint {
        RailCoord::Horizontal { row, column, direction } => {
            if row < 0 || column < 0 || row as usize >= grid.rails.horizontal.len()
                || column as usize >= grid.rails.horizontal[row as usize].len() {
                false
            } else {
                grid.rails.horizontal[row as usize][column as usize] == direction
            }
        },
        RailCoord::Vertical { row, column, direction } => {
            if row < 0 || column < 0 || row as usize >= grid.rails.vertical.len()
                || column as usize >= grid.rails.vertical[row as usize].len() {
                false
            } else {
                grid.rails.vertical[row as usize][column as usize] == direction
            }
        },
    }
}

/// Number of clues that the grid does not match.
fn compute_rail_failures(grid: &Grid, rail_constraints: &Vec<RailCoord>) -> (r: i32)
    requires
        rail_constraints@.len() <= i32::MAX,
    ensures
        r == failing_count(*grid, rail_constraints@, rail_constraints@.len() as int),
{
    let mut failures: i32 = 0;
    let mut i: usize = 0;
    while i < rail_constraints.len()
        invariant
            i <= rail_constraints@.len() <= i32::MAX,
            failures == failing_count(*grid, rail_constraints@, i as int),
            0 <= failures <= i,
        decreases rail_constraints@.len() - i,
    {
        if !matches_constraint(grid, &rail_constraints[i]) {
            failures += 1;
        }
        i += 1;
    }
    failures
}

/// Rails of the grid that the last trace did not reach.
pub fn count_unreachable_rails(grid: &Grid) -> (r: i32)
    requires
        grid.wf(),
    ensures
        r == grid.total_rails - grid.reachable_rails_count,
{
    grid.total_rails - grid.reachable_rails_count
}

/// The satisfaction of a grid, as its current rails and trace give it.
pub open spec fn satisfaction_of(grid: Grid, constraints: Constraints) -> Satisfaction {
    Satisfaction {
        failing_rails: failing_count(grid, constraints.rails@, constraints.rails@.len() as int) as i32,
        cell_diff: (constraints.cell_count - grid_active(grid)) as i32,
        unconnected_loops: 1,
        unreachable_rails: (grid.total_rails - grid.reachable_rails_count) as i32,
    }
}

/// Compares a recalculated grid with the constraints of its puzzle.
pub fn compute_satisfaction(grid: &Grid, constraints: &Constraints) -> (r: Satisfaction)
    requires
        grid.is_recalculated(),
        constraints.wf(),
    ensures
        r == satisfaction_of(*grid, *constraints),
        r.failing_rails == failing_count(*grid, constraints.rails@, constraints.rails@.len() as int),
        r.cell_diff == constraints.cell_count - grid_active(*grid),
        r.unreachable_rails == grid.total_rails - grid.reachable_rails_count,
{
    let failing_rails = compute_rail_failures(grid, &constraints.rails);
    let active = count_cells(grid);
    proof {
        lemma_active_count_bounds(grid.cells_view(), grid.num_rows as int, grid.num_columns as int);
        lemma_row_product(grid.num_rows as int, grid.num_rows as int, grid.num_columns as int);
    }
    let cell_diff = constraints.cell_count - active;
    let unconnected_loops: i32 = 1;
    let unreachable_rails = count_unreachable_rails(grid);
    Satisfaction { failing_rails, cell_diff, unconnected_loops, unreachable_rails }
}

/// How a rail runs relative to the reading order of its lane.
#[derive(Debug, Copy, Clone, PartialEq, Eq, Structural)]
pub enum Reverse {
    Reverse,
    Neutral,
    Regular,
}

impl Reverse {
    pub fn is_reverse(&self) -> (r: bool)
        ensures
            r == (*self == Reverse::Reverse),
    {
        *self == Reverse::Reverse
    }
}

pub open spec fn reverse_of_horizontal(h: Horizontal) -> Reverse {
    match h {
        Horizontal::Left => Reverse::Reverse,
        Horizontal::Center => Reverse::Neutral,
        Horizontal::Right => Reverse::Regular,
    }
}

pub open spec fn reverse_of_vertical(v: Vertical) -> Reverse {
    match v {
        Vertical::Top => Reverse::Reverse,
        Vertical::Center => Reverse::Neutral,
        Vertical::Bottom => Reverse::Regular,
    }
}

impl From<Horizontal> for Reverse {
    fn from(value: Horizontal) -> (r: Self) {
        match value {
            Horizontal::Left => Reverse::Reverse,
            Horizontal::Center => Reverse::Neutral,
            Horizontal::Right => Reverse::Regular,
        }
    }
}

impl vstd::std_specs::convert::FromSpecImpl<Horizontal> for Reverse {
    open spec fn obeys_from_spec() -> bool {
        true
    }

    open spec fn from_spec(h: Horizontal) -> Reverse {
        reverse_of_horizontal(h)
    }
}

impl From<Vertical> for Reverse {
    fn from(value: Vertical) -> (r: Self) {
        match value {
            Vertical::Top => Reverse::Reverse,
            Vertical::Center => Reverse::Neutral,
            Vertical::Bottom => Reverse::Regular,
        }
    }
}

impl vstd::std_specs::convert::FromSpecImpl<Vertical> for Reverse {
    open spec fn obeys_from_spec() -> bool {
        true
    }

    open spec fn from_spec(v: Vertical) -> Reverse {
        reverse_of_vertical(v)
    }
}

/// Whether a clue is met by a reachable rail (a `Center` clue needs no
/// reachability), with how the grid's rail at that place runs.
pub fn matches_constraint_and_reachable(grid: &Grid, constraint: &RailCoord) -> (r: (bool, Reverse))
    requires
        grid.wf(),
        match *constraint {
            RailCoord::Horizontal { row, column, .. } => 0 <= row <= grid.num_rows && 0 <= column < grid.num_columns,
            RailCoord::Vertical { row, column, .. } => 0 <= row < grid.num_rows && 0 <= column <= grid.num_columns,
        },
    ensures
        match *constraint {
            RailCoord::Horizontal { row, column, direction } => {
                let rail = grid.rails.horizontal@[row as int]@[column as int];
                r == (rail == direction && (direction == Horizontal::Center || grid.reachable_rails.horizontal@[row as int]@[column as int]),
                    reverse_of_horizontal(rail))
            },
            RailCoord::Vertical { row, column, direction } => {
                let rail = grid.rails.vertical@[row as int]@[column as int];
                r == (rail == direction && (direction == Vertical::Center || grid.reachable_rails.vertical@[row as int]@[column as int]),
                    reverse_of_vertical(rail))
            },
        },
{
    match *constraint {
        RailCoord::Horizontal { row, column, direction } => {
            let rail = grid.rails.get_horiz(row, column);
            (
                rail == direction && (direction == Horizontal::Center || grid.reachable_rails.get_horiz(row, column)),
                Reverse::from(rail),
            )
        },
        RailCoord::Vertical { row, column, direction } => {
            let rail = grid.rails.get_vert(row, column);
            (
                rail == direction && (direction == Vertical::Center || grid.reachable_rails.get_vert(row, column)),
                Reverse::from(rail),
            )
        },
    }
}

/// A draw of the random source makes its rail a clue with the clue percentage.
pub open spec fn clue_picked(draw: u32) -> bool {
    draw % 100 < CLUE_PERCENTAGE
}

/// The root lies on a horizontal rail of the grid.
pub open spec fn root_on_rails(grid: Grid) -> bool {
    0 <= grid.root.y <= grid.num_rows && 0 <= grid.root.x < grid.num_columns
}

pub open spec fn horizontal_clue(grid: Grid, r: int, c: int) -> RailCoord {
    RailCoord::Horizontal { row: r as i32, column: c as i32, direction: grid.rails.horizontal@[r]@[c] }
}

pub open spec fn vertical_clue(grid: Grid, r: int, c: int) -> RailCoord {
    RailCoord::Vertical { row: r as i32, column: c as i32, direction: grid.rails.vertical@[r]@[c] }
}

/// The clue on the horizontal rail of the root.
pub open spec fn root_clue(grid: Grid) -> RailCoord {
    horizontal_clue(grid, grid.root.y as int, grid.root.x as int)
}

/// Horizontal clues picked in row `r` over the columns `1..c`, the root's rail left out.
pub open spec fn picked_horizontal_row(grid: Grid, draws: Seq<Seq<u32>>, r: int, c: int) -> Seq<RailCoord>
    decreases c,
{
    if c <= 1 {
        seq![]
    } else {
        let k = c - 1;
        picked_horizontal_row(grid, draws, r, k) + (if clue_picked(draws[r][k]) && !(r == grid.root.y && k == grid.root.x) {
            seq![horizontal_clue(grid, r, k)]
        } else {
            seq![]
        })
    }
}

/// Horizontal clues picked over the rows `1..r`.
pub open spec fn picked_horizontal(grid: Grid, draws: Seq<Seq<u32>>, r: int) -> Seq<RailCoord>
    decreases r,
{
    if r <= 1 {
        seq![]
    } else {
        picked_horizontal(grid, draws, r - 1) + picked_horizontal_row(grid, draws, r - 1, grid.num_columns - 1)
    }
}

/// Vertical clues picked in row `r` over the columns `1..c`.
pub open spec fn picked_vertical_row(grid: Grid, draws: Seq<Seq<u32>>, r: int, c: int) -> Seq<RailCoord>
    decreases c,
{
    if c <= 1 {
        seq![]
    } else {
        let k = c - 1;
        picked_vertical_row(grid, draws, r, k) + (if clue_picked(draws[r][k]) {
            seq![vertical_clue(grid, r, k)]
        } else {
            seq![]
        })
    }
}

/// Vertical clues picked over the rows `1..r`.
pub open spec fn picked_vertical(grid: Grid, draws: Seq<Seq<u32>>, r: int) -> Seq<RailCoord>
    decreases r,
{
    if r <= 1 {
        seq![]
    } else {
        picked_vertical(grid, draws, r - 1) + picked_vertical_row(grid, draws, r - 1, grid.num_columns as int)
    }
}

/// The clues that the draws pick: the root's horizontal rail first, then each
/// picked inner horizontal rail and each picked inner vertical rail, row by row.
pub open spec fn picked_clues(grid: Grid, draws: Rails<u32, u32>) -> Seq<RailCoord> {
    seq![root_clue(grid)] + picked_horizontal(grid, draws.horiz(), grid.num_rows as int) + picked_vertical(
        grid,
        draws.vert(),
        grid.num_rows - 1,
    )
}

/// Constraints taken from `grid`: the root's clue comes first, every clue
/// holds the grid's rail at its place, and the cell count is the grid's.
pub open spec fn taken_from(c: Constraints, grid: Grid) -> bool {
    &&& c.wf()
    &&& c.rails@.len() >= 1
    &&& c.rails@[0] == root_clue(grid)
    &&& forall|i: int| 0 <= i < c.rails@.len() ==> clue_matches(grid, #[trigger] c.rails@[i])
    &&& c.cell_count == grid_active(grid)
}

proof fn lemma_picked_horizontal_row(grid: Grid, draws: Seq<Seq<u32>>, r: int, c: int)
    requires
        grid.wf(),
        1 <= r <= grid.num_rows,
        0 <= c <= grid.num_columns,
    ensures
        picked_horizontal_row(grid, draws, r, c).len() <= c,
        forall|i: int| 0 <= i < picked_horizontal_row(grid, draws, r, c).len()
            ==> clue_matches(grid, #[trigger] picked_horizontal_row(grid, draws, r, c)[i]),
    decreases c,
{
    if c > 1 {
        lemma_picked_horizontal_row(grid, draws, r, c - 1);
    }
}

proof fn lemma_picked_horizontal(grid: Grid, draws: Seq<Seq<u32>>, r: int)
    requires
        grid.wf(),
        0 <= r <= grid.num_rows,
    ensures
        picked_horizontal(grid, draws, r).len() <= r * grid.num_columns,
        forall|i: int| 0 <= i < picked_horizontal(grid, draws, r).len()
            ==> clue_matches(grid, #[trigger] picked_horizontal(grid, draws, r)[i]),
    decreases r,
{
    if r > 1 {
        lemma_picked_horizontal(grid, draws, r - 1);
        lemma_picked_horizontal_row(grid, draws, r - 1, grid.num_columns - 1);
        let a = picked_horizontal(grid, draws, r - 1);
        let b = picked_horizontal_row(grid, draws, r - 1, grid.num_columns - 1);
        assert forall|i: int| 0 <= i < (a + b).len() implies clue_matches(grid, #[trigger] (a + b)[i]) by {
            if i >= a.len() {
                assert((a + b)[i] == b[i - a.len()]);
            }
        }
        assert((r - 1) * grid.num_columns + grid.num_columns == r * grid.num_columns) by (nonlinear_arith);
    }
}

proof fn lemma_picked_vertical_row(grid: Grid, draws: Seq<Seq<u32>>, r: int, c: int)
    requires
        grid.wf(),
        1 <= r < grid.num_rows,
        0 <= c <= grid.num_columns + 1,
    ensures
        picked_vertical_row(grid, draws, r, c).len() <= c,
        forall|i: int| 0 <= i < picked_vertical_row(grid, draws, r, c).len()
            ==> clue_matches(grid, #[trigger] picked_vertical_row(grid, draws, r, c)[i]),
    decreases c,
{
    if c > 1 {
        lemma_picked_vertical_row(grid, draws, r, c - 1);
    }
}

proof fn lemma_picked_vertical(grid: Grid, draws: Seq<Seq<u32>>, r: int)
    requires
        grid.wf(),
        0 <= r < grid.num_rows,
    ensures
        picked_vertical(grid, draws, r).len() <= r * (grid.num_columns + 1),
        forall|i: int| 0 <= i < picked_vertical(grid, draws, r).len()
            ==> clue_matches(grid, #[trigger] picked_vertical(grid, draws, r)[i]),
    decreases r,
{
    if r > 1 {
        lemma_picked_vertical(grid, draws, r - 1);
        lemma_picked_vertical_row(grid, draws, r - 1, grid.num_columns as int);
        let a = picked_vertical(grid, draws, r - 1);
        let b = picked_vertical_row(grid, draws, r - 1, grid.num_columns as int);
        assert forall|i: int| 0 <= i < (a + b).len() implies clue_matches(grid, #[trigger] (a + b)[i]) by {
            if i >= a.len() {
                assert((a + b)[i] == b[i - a.len()]);
            }
        }
        assert((r - 1) * (grid.num_columns + 1) + (grid.num_columns + 1) == r * (grid.num_columns + 1)) by (nonlinear_arith);
    }
}

/// Every clue that the draws pick matches the grid, and there are few enough
/// of them to count in `i32`.
pub proof fn lemma_picked_clues(grid: Grid, draws: Rails<u32, u32>)
    requires
        grid.wf(),
        root_on_rails(grid),
    ensures
        picked_clues(grid, draws).len() <= 1 + 3 * MAX_CELLS,
        picked_clues(grid, draws)[0] == root_clue(grid),
        forall|i: int| 0 <= i < picked_clues(grid, draws).len() ==> clue_matches(grid, #[trigger] picked_clues(grid, draws)[i]),
{
    let rows = grid.num_rows as int;
    let columns = grid.num_columns as int;
    lemma_picked_horizontal(grid, draws.horiz(), rows);
    lemma_picked_vertical(grid, draws.vert(), rows - 1);
    let a = seq![root_clue(grid)];
    let b = picked_horizontal(grid, draws.horiz(), rows);
    let c = picked_vertical(grid, draws.vert(), rows - 1);
    assert((rows - 1) * (columns + 1) <= rows * columns + rows) by (nonlinear_arith)
        requires
            1 <= rows,
            1 <= columns,
    ;
    assert forall|i: int| 0 <= i < (a + b + c).len() implies clue_matches(grid, #[trigger] (a + b + c)[i]) by {
        if i == 0 {
            assert((a + b + c)[i] == root_clue(grid));
        } else if i < 1 + b.len() {
            assert((a + b + c)[i] == b[i - 1]);
        } else {
            assert((a + b + c)[i] == c[i - 1 - b.len()]);
        }
    }
    assert((a + b + c)[0] == root_clue(grid));
}

/// The constraints of a puzzle whose solution is `grid`, with the rails picked
/// by `draws` (one draw per rail, shaped as the grid's rails).
pub fn choose_constraints_from(grid: &Grid, draws: &Rails<u32, u32>) -> (r: Constraints)
    requires
        grid.wf(),
        root_on_rails(*grid),
        draws.has_shape(grid.num_rows as int, grid.num_columns as int),
    ensures
        r.rails@ == picked_clues(*grid, *draws),
        r.cell_count == grid_active(*grid),
        taken_from(r, *grid),
{
    let rows = grid.num_rows as usize;
    let columns = grid.num_columns as usize;
    let ghost hd = draws.horiz();
    let ghost vd = draws.vert();
    let mut rails: Vec<RailCoord> = Vec::new();
    let row = grid.root.y;
    let column = grid.root.x;
    let direction = grid.rails.get_horiz(row, column);
    rails.push(RailCoord::Horizontal { row, column, direction });
    let mut i_row: usize = 1;
    while i_row < rows
        invariant
            grid.wf(),
            draws.has_shape(grid.num_rows as int, grid.num_columns as int),
            hd == draws.horiz(),
            rows == grid.num_rows,
            columns == grid.num_columns,
            1 <= i_row <= rows,
            rails@ == seq![root_clue(*grid)] + picked_horizontal(*grid, hd, i_row as int),
        decreases rows - i_row,
    {
        let mut i_column: usize = 1;
        while i_column < columns - 1
            invariant
                grid.wf(),
                draws.has_shape(grid.num_rows as int, grid.num_columns as int),
                hd == draws.horiz(),
                rows == grid.num_rows,
                columns == grid.num_columns,
                1 <= i_row < rows,
                i_column >= 1,
                i_column <= columns - 1 || i_column == 1,
                rails@ == seq![root_clue(*grid)] + picked_horizontal(*grid, hd, i_row as int) + picked_horizontal_row(
                    *grid,
                    hd,
                    i_row as int,
                    i_column as int,
                ),
            decreases columns - i_column,
        {
            let is_root = i_row as i32 == grid.root.y && i_column as i32 == grid.root.x;
            if draws.horizontal[i_row][i_column] % 100 < CLUE_PERCENTAGE && !is_root {
                let direction = grid.rails.horizontal[i_row][i_column];
                rails.push(RailCoord::Horizontal { row: i_row as i32, column: i_column as i32, direction });
            }
            i_column += 1;
            assert(rails@ =~= seq![root_clue(*grid)] + picked_horizontal(*grid, hd, i_row as int) + picked_horizontal_row(
                *grid,
                hd,
                i_row as int,
                i_column as int,
            ));
        }
        assert(picked_horizontal_row(*grid, hd, i_row as int, i_column as int) == picked_horizontal_row(
            *grid,
            hd,
            i_row as int,
            grid.num_columns - 1,
        ));
        assert(picked_horizontal(*grid, hd, i_row + 1) == picked_horizontal(*grid, hd, i_row as int)
            + picked_horizontal_row(*grid, hd, i_row as int, grid.num_columns - 1));
        i_row += 1;
        assert(rails@ =~= seq![root_clue(*grid)] + picked_horizontal(*grid, hd, i_row as int));
    }
    let ghost horizontal_part = rails@;
    let mut i_row: usize = 1;
    while i_row + 1 < rows
        invariant
            grid.wf(),
            draws.has_shape(grid.num_rows as int, grid.num_columns as int),
            vd == draws.vert(),
            rows == grid.num_rows,
            columns == grid.num_columns,
            1 <= i_row <= rows,
            i_row == 1 || i_row <= rows - 1,
            rails@ == horizontal_part + picked_vertical(*grid, vd, i_row as int),
        decreases rows - i_row,
    {
        let mut i_column: usize = 1;
        while i_column < columns
            invariant
                grid.wf(),
                draws.has_shape(grid.num_rows as int, grid.num_columns as int),
                vd == draws.vert(),
                rows == grid.num_rows,
                columns == grid.num_columns,
                1 <= i_row < rows - 1,
                1 <= i_column <= columns,
                rails@ == horizontal_part + picked_vertical(*grid, vd, i_row as int) + picked_vertical_row(
                    *grid,
                    vd,
                    i_row as int,
                    i_column as int,
                ),
            decreases columns - i_column,
        {
            if draws.vertical[i_row][i_column] % 100 < CLUE_PERCENTAGE {
                let direction = grid.rails.vertical[i_row][i_column];
                rails.push(RailCoord::Vertical { row: i_row as i32, column: i_column as i32, direction });
            }
            i_column += 1;
            assert(rails@ =~= horizontal_part + picked_vertical(*grid, vd, i_row as int) + picked_vertical_row(
                *grid,
                vd,
                i_row as int,
                i_column as int,
            ));
        }
        assert(picked_vertical(*grid, vd, i_row + 1) == picked_vertical(*grid, vd, i_row as int)
            + picked_vertical_row(*grid, vd, i_row as int, grid.num_columns as int));
        i_row += 1;
        assert(rails@ =~= horizontal_part + picked_vertical(*grid, vd, i_row as int));
    }
    assert(picked_vertical(*grid, vd, i_row as int) == picked_vertical(*grid, vd, rows - 1)) by {
        if rows < 2 {
            assert(i_row == 1);
        }
    }
    let cell_count = count_cells(grid);
    proof {
        lemma_picked_clues(*grid, *draws);
        lemma_active_count_bounds(grid.cells_view(), rows as int, columns as int);
        lemma_row_product(rows as int, rows as int, columns as int);
    }
    Constraints { rails, cell_count }
}

/// Draws one random number for each inner rail that may become a clue, in
/// the order in which the clues are picked; the other entries stay 0.
fn draw_clue_picks(num_rows: i32, num_columns: i32) -> (r: Rails<u32, u32>)
    requires
        fits(num_rows as int, num_columns as int),
    ensures
        r.has_shape(num_rows as int, num_columns as int),
{
    let mut draws = Rails::new(num_rows, num_columns, 0u32, 0u32);
    let rows = num_rows as usize;
    let columns = num_columns as usize;
    let mut i_row: usize = 1;
    while i_row < rows
        invariant
            draws.has_shape(rows as int, columns as int),
            1 <= i_row <= rows,
            rows == num_rows,
            columns == num_columns,
            1 <= columns,
        decreases rows - i_row,
    {
        let mut i_column: usize = 1;
        while i_column + 1 < columns
            invariant
                draws.has_shape(rows as int, columns as int),
                1 <= i_row < rows,
                1 <= i_column <= columns,
                rows == num_rows,
                columns == num_columns,
                1 <= columns,
            decreases columns - i_column,
        {
            let draw = random_u32();
            crate::logic::trace::set_entry(&mut draws.horizontal, i_row, i_column, draw);
            i_column += 1;
        }
        i_row += 1;
    }
    let mut i_row: usize = 1;
    while i_row + 1 < rows
        invariant
            draws.has_shape(rows as int, columns as int),
            1 <= i_row <= rows,
            rows == num_rows,
            columns == num_columns,
            1 <= columns,
        decreases rows - i_row,
    {
        let mut i_column: usize = 1;
        while i_column < columns
            invariant
                draws.has_shape(rows as int, columns as int),
                1 <= i_row < rows,
                1 <= i_column <= columns,
                rows == num_rows,
                columns == num_columns,
                1 <= columns,
            decreases columns - i_column,
        {
            let draw = random_u32();
            crate::logic::trace::set_entry(&mut draws.vertical, i_row, i_column, draw);
            i_column += 1;
        }
        i_row += 1;
    }
    draws
}

/// The constraints of a puzzle whose solution is `grid`: the root's clue and
/// a random share of the other inner rails, with the solution's cell count.
pub fn choose_constraints(grid: &Grid) -> (r: Constraints)
    requires
        grid.wf(),
        root_on_rails(*grid),
    ensures
        taken_from(r, *grid),
        exists|draws: Rails<u32, u32>| #[trigger] draws.has_shape(grid.num_rows as int, grid.num_columns as int)
            && r.rails@ == picked_clues(*grid, draws),
{
    let draws = draw_clue_picks(grid.num_rows, grid.num_columns);
    let r = choose_constraints_from(grid, &draws);
    assert(draws.has_shape(grid.num_rows as int, grid.num_columns as int) && r.rails@ == picked_clues(*grid, draws));
    r
}

/// Clues that all match, the solution's cell count and a loop that reaches
/// every rail make a solved puzzle: the constraints taken from a solution are
/// met by that solution.
pub proof fn lemma_solution_meets_its_constraints(grid: Grid, constraints: Constraints)
    requires
        grid.wf(),
        taken_from(constraints, grid),
        grid.total_rails == grid.reachable_rails_count,
    ensures
        satisfaction_of(grid, constraints).is_success(),
{
    lemma_all_match_no_failures(grid, constraints.rails@, constraints.rails@.len() as int);
}

proof fn lemma_all_match_no_failures(grid: Grid, clues: Seq<RailCoord>, n: int)
    requires
        0 <= n <= clues.len(),
        forall|i: int| 0 <= i < clues.len() ==> clue_matches(grid, #[trigger] clues[i]),
    ensures
        failing_count(grid, clues, n) == 0,
    decreases n,
{
    if n > 0 {
        lemma_all_match_no_failures(grid, clues, n - 1);
    }
}

} // verus!
