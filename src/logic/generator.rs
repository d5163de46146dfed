use crate::logic::constraints::{grid_active, lemma_active_count_none, lemma_active_count_update};
use crate::logic::grid::{rail_row_sum, rail_sum, filled, count_neighbours, in_range, ivec2, Grid, IVec2, MAX_CELLS};
use crate::logic::intersection::{Crossing, Intersection};
use crate::logic::rails::{Horizontal, Vertical};
use crate::logic::random::random_u32;
use crate::logic::trace::{initial_trace_state, trace_from, trace_of, trace_step, TraceFault, TraceState};
use vstd::prelude::*;

verus! {

/// Largest number of rows, and of columns, of a generated grid.
pub const MAX_SIDE: i32 = 10000;

/// A generated grid of at most `MAX_SIDE` rows and columns fits.
pub proof fn lemma_side_product(a: int, b: int)
    requires
        0 <= a <= MAX_SIDE,
        0 <= b <= MAX_SIDE,
    ensures
        0 <= a * b <= MAX_CELLS,
{
    assert(0 <= a * b <= MAX_SIDE * MAX_SIDE) by (nonlinear_arith)
        requires
            0 <= a <= MAX_SIDE,
            0 <= b <= MAX_SIDE,
    ;
}

/// Share of the inner cells, in percent, that growth aims to activate.
pub const MAX_CELLS_PERCENT: i32 = 50;

/// Most growth rounds of one generated grid.
pub const GROWTH_ROUNDS: u32 = 1000;

/// Picks of a neighbour before any inner one is taken, even an active one.
pub const LENIENT_AFTER: u32 = 50;

/// Picks of a neighbour before growth gives up.
pub const MAX_PICKS: u32 = 100;

/// The cell that `candidate` selects among the eight around `(row, column)`:
/// up, right, down, left, then the four diagonals.
pub open spec fn neighbour_spec(row: int, column: int, candidate: u32) -> (int, int) {
    let k = candidate % 8;
    if k == 0 {
        (row - 1, column)
    } else if k == 1 {
        (row, column + 1)
    } else if k == 2 {
        (row + 1, column)
    } else if k == 3 {
        (row, column - 1)
    } else if k == 4 {
        (row - 1, column - 1)
    } else if k == 5 {
        (row - 1, column + 1)
    } else if k == 6 {
        (row + 1, column + 1)
    } else {
        (row + 1, column - 1)
    }
}

/// The neighbour of `(row, column)` that a random draw selects.
pub fn neighbour(row: i32, column: i32, candidate: u32) -> (r: (i32, i32))
    requires
        -MAX_SIDE <= row <= MAX_SIDE,
        -MAX_SIDE <= column <= MAX_SIDE,
    ensures
        (r.0 as int, r.1 as int) == neighbour_spec(row as int, column as int, candidate),
{
    let k = candidate % 8;
    if k == 0 {
        (row - 1, column)
    } else if k == 1 {
        (row, column + 1)
    } else if k == 2 {
        (row + 1, column)
    } else if k == 3 {
        (row, column - 1)
    } else if k == 4 {
        (row - 1, column - 1)
    } else if k == 5 {
        (row - 1, column + 1)
    } else if k == 6 {
        (row + 1, column + 1)
    } else {
        (row + 1, column - 1)
    }
}

/// A candidate is taken when it lies inside the border and is an inactive
/// cell with at most two active edge neighbours; after many picks, any cell
/// inside the border is taken.
pub open spec fn accepts_cells(cells: Seq<Seq<bool>>, rows: int, columns: int, row: int, column: int, picks: int) -> bool {
    &&& 0 < row < rows - 1
    &&& 0 < column < columns - 1
    &&& ((!cells[row][column] && (if cells[row + 1][column] { 1int } else { 0 }) + (if cells[row - 1][column] { 1int } else { 0 })
        + (if cells[row][column + 1] { 1int } else { 0 }) + (if cells[row][column - 1] { 1int } else { 0 }) <= 2)
        || picks > LENIENT_AFTER)
}

/// Whether growth takes the candidate cell on its `picks`-th pick.
pub fn accepts_candidate(grid: &Grid, row: i32, column: i32, picks: u32) -> (r: bool)
    requires
        grid.wf(),
    ensures
        r == accepts_cells(grid.cells_view(), grid.num_rows as int, grid.num_columns as int, row as int, column as int, picks as int),
{
    if in_range(grid, row, column) {
        let neighbours = count_neighbours(grid, row, column);
        let already_enabled = grid.cells[row as usize][column as usize];
        !already_enabled && neighbours <= 2 || picks > LENIENT_AFTER
    } else {
        false
    }
}

/// The root of a generated grid of that size: its middle cell.
pub open spec fn generated_root(num_rows: int, num_columns: int) -> IVec2 {
    IVec2 { x: (num_columns / 2) as i32, y: (num_rows / 2) as i32 }
}

/// A grid that growth may give: the size asked for, the root in the middle
/// and active, active cells only inside the border, the cell above the root
/// inactive, and the locks of a new grid.
pub open spec fn is_grown(grid: Grid, num_rows: int, num_columns: int) -> bool {
    let root = generated_root(num_rows, num_columns);
    &&& grid.wf()
    &&& grid.num_rows == num_rows
    &&& grid.num_columns == num_columns
    &&& grid.root == root
    &&& grid.cells@[root.y as int]@[root.x as int]
    &&& forall|i: int, j: int| 0 <= i < num_rows && 0 <= j < num_columns && #[trigger] grid.cells@[i]@[j]
        ==> 0 < i < num_rows - 1 && 0 < j < num_columns - 1 && !(i == root.y - 1 && j == root.x)
    &&& forall|i: int, j: int| 0 <= i < num_rows && 0 <= j < num_columns
        ==> #[trigger] grid.fixed_cells@[i]@[j] == (i == 0 || i == num_rows - 1 || j == 0 || j == num_columns - 1
            || (j == root.x && (i == root.y || i == root.y - 1)))
}

/// How many cells growth aims at: half the inner cells, rounded down.
pub open spec fn max_cells(num_rows: int, num_columns: int) -> int {
    (num_rows - 2) * (num_columns - 2) * MAX_CELLS_PERCENT / 100
}

/// Draws that one round may use: one per pick, and one more every ten picks.
pub const DRAWS_PER_ROUND: u32 = 110;

/// Draws that growth may use over all its rounds.
pub const GROWTH_DRAWS: usize = 110000;

/// The cells of a grid where only the root is active.
pub open spec fn root_only(num_rows: int, num_columns: int) -> Seq<Seq<bool>> {
    let root = generated_root(num_rows, num_columns);
    Seq::new(num_rows as nat, |i: int| Seq::new(num_columns as nat, |j: int| i == root.y && j == root.x))
}

/// One round's picks from pick number `picks` on, using the draws from
/// `next`: the taken cell and the next unused draw, or `None` once
/// `MAX_PICKS` picks are refused. A pick takes a random neighbour of the
/// cell at `index`; every tenth refused pick moves `index` to a random
/// earlier cell.
pub open spec fn pick_spec(
    cells: Seq<Seq<bool>>,
    rows: int,
    columns: int,
    enabled: Seq<(i32, i32)>,
    draws: Seq<u32>,
    next: int,
    index: int,
    picks: int,
) -> Option<((i32, i32), int)>
    decreases MAX_PICKS - picks,
{
    if picks < 0 || picks >= MAX_PICKS {
        None
    } else {
        let (nr, nc) = neighbour_spec(enabled[index].0 as int, enabled[index].1 as int, draws[next]);
        let p = picks + 1;
        if accepts_cells(cells, rows, columns, nr, nc, p) {
            Some(((nr as i32, nc as i32), next + 1))
        } else if p >= MAX_PICKS {
            None
        } else if p % 10 == 0 {
            pick_spec(cells, rows, columns, enabled, draws, next + 2, draws[next + 1] as int % enabled.len() as int, p)
        } else {
            pick_spec(cells, rows, columns, enabled, draws, next + 1, index, p)
        }
    }
}

/// The rounds of growth from round `rounds` on: the final cells and the
/// cells in the order they were taken, or `None` when a round refuses
/// `MAX_PICKS` picks. Growth stops at `max_cells` taken cells or after
/// `GROWTH_ROUNDS` rounds; a cell taken above the root is not activated.
pub open spec fn grow_rounds(
    rows: int,
    columns: int,
    cells: Seq<Seq<bool>>,
    enabled: Seq<(i32, i32)>,
    draws: Seq<u32>,
    next: int,
    rounds: int,
) -> Option<(Seq<Seq<bool>>, Seq<(i32, i32)>)>
    decreases GROWTH_ROUNDS - rounds,
{
    if enabled.len() >= max_cells(rows, columns) || rounds < 0 || rounds >= GROWTH_ROUNDS {
        Some((cells, enabled))
    } else {
        match pick_spec(cells, rows, columns, enabled, draws, next, enabled.len() - 1, 0) {
            None => None,
            Some((chosen, after)) => {
                let root = generated_root(rows, columns);
                if chosen.0 == root.y - 1 && chosen.1 == root.x {
                    grow_rounds(rows, columns, cells, enabled, draws, after, rounds + 1)
                } else {
                    grow_rounds(
                        rows,
                        columns,
                        cells.update(chosen.0 as int, cells[chosen.0 as int].update(chosen.1 as int, true)),
                        enabled.push(chosen),
                        draws,
                        after,
                        rounds + 1,
                    )
                }
            },
        }
    }
}

/// Growth from the root alone with the given draws.
pub open spec fn grow_spec(num_rows: int, num_columns: int, draws: Seq<u32>) -> Option<(Seq<Seq<bool>>, Seq<(i32, i32)>)> {
    let root = generated_root(num_rows, num_columns);
    grow_rounds(num_rows, num_columns, root_only(num_rows, num_columns), seq![(root.y, root.x)], draws, 0, 0)
}

/// The cells one apart, edge or corner.
pub open spec fn eight_adjacent(a: (i32, i32), b: (i32, i32)) -> bool {
    a != b && -1 <= a.0 - b.0 <= 1 && -1 <= a.1 - b.1 <= 1
}

/// `order` lists the cells as growth took them: the root first, each later
/// cell next to one taken before it, and the active cells are exactly those
/// listed.
pub open spec fn growth_order(cells: Seq<Seq<bool>>, rows: int, columns: int, order: Seq<(i32, i32)>) -> bool {
    let root = generated_root(rows, columns);
    &&& order.len() >= 1
    &&& order[0] == (root.y, root.x)
    &&& forall|k: int| 1 <= k < order.len() ==> exists|j: int| 0 <= j < k && eight_adjacent(#[trigger] order[k], order[j])
    &&& forall|k: int| 0 <= k < order.len() ==> 0 <= (#[trigger] order[k]).0 < rows && 0 <= order[k].1 < columns
        && cells[order[k].0 as int][order[k].1 as int]
    &&& forall|i: int, j: int| 0 <= i < rows && 0 <= j < columns && #[trigger] cells[i][j]
        ==> exists|k: int| 0 <= k < order.len() && order[k] == (i as i32, j as i32)
}

/// One round's picks with the draws from `start`: the taken cell and the
/// next unused draw, or `None` once `MAX_PICKS` picks are refused.
fn pick_cell(grid: &Grid, enabled: &Vec<(i32, i32)>, draws: &Vec<u32>, start: usize) -> (r: Option<((i32, i32), usize)>)
    requires
        grid.wf(),
        3 <= grid.num_rows <= MAX_SIDE,
        3 <= grid.num_columns <= MAX_SIDE,
        enabled@.len() >= 1,
        forall|k: int| 0 <= k < enabled@.len() ==> 0 <= (#[trigger] enabled@[k]).0 < grid.num_rows && 0 <= enabled@[k].1 < grid.num_columns,
        start + DRAWS_PER_ROUND <= draws@.len(),
    ensures
        r matches Some((c, after)) ==> pick_spec(grid.cells_view(), grid.num_rows as int, grid.num_columns as int, enabled@, draws@,
            start as int, enabled@.len() - 1, 0) == Some((c, after as int)),
        r is None ==> pick_spec(grid.cells_view(), grid.num_rows as int, grid.num_columns as int, enabled@, draws@,
            start as int, enabled@.len() - 1, 0) is None,
        r matches Some((c, after)) ==> 0 < c.0 < grid.num_rows - 1 && 0 < c.1 < grid.num_columns - 1
            && after <= start + DRAWS_PER_ROUND
            && exists|j: int| 0 <= j < enabled@.len() && eight_adjacent(c, #[trigger] enabled@[j]),
{
    let ghost cells = grid.cells_view();
    let ghost rows = grid.num_rows as int;
    let ghost columns = grid.num_columns as int;
    let ghost whole = pick_spec(cells, rows, columns, enabled@, draws@, start as int, enabled@.len() - 1, 0);
    let mut index = enabled.len() - 1;
    let mut picks: u32 = 0;
    let mut next = start;
    let n = draws.len();
    loop
        invariant
            n == draws@.len(),
            grid.wf(),
            cells == grid.cells_view(),
            rows == grid.num_rows,
            columns == grid.num_columns,
            3 <= rows <= MAX_SIDE,
            3 <= columns <= MAX_SIDE,
            enabled@.len() >= 1,
            forall|k: int| 0 <= k < enabled@.len() ==> 0 <= (#[trigger] enabled@[k]).0 < rows && 0 <= enabled@[k].1 < columns,
            start + DRAWS_PER_ROUND <= draws@.len(),
            index < enabled@.len(),
            picks < MAX_PICKS,
            next <= start + picks + picks / 10,
            whole == pick_spec(cells, rows, columns, enabled@, draws@, start as int, enabled@.len() - 1, 0),
            whole == pick_spec(cells, rows, columns, enabled@, draws@, next as int, index as int, picks as int),
        decreases MAX_PICKS - picks,
    {
        let (row, column) = enabled[index];
        assert(picks / 10 <= 9);
        assert(next + 2 <= start + DRAWS_PER_ROUND);
        let candidate = draws[next];
        let (new_row, new_column) = neighbour(row, column, candidate);
        picks += 1;
        if accepts_candidate(grid, new_row, new_column, picks) {
            assert(eight_adjacent((new_row, new_column), enabled@[index as int]));
            return Some(((new_row, new_column), next + 1));
        }
        if picks >= MAX_PICKS {
            return None;
        }
        if picks % 10 == 0 {
            index = draws[next + 1] as usize % enabled.len();
            next += 2;
        } else {
            next += 1;
        }
    }
}

/// Grows a candidate solution from its root with the given random draws:
/// each round extends the most recent cell by a neighbour that a draw picks
/// (or, every ten refused picks, a cell that another draw picks), until
/// `max_cells` cells are taken or the rounds run out. `None` exactly when
/// some round refuses `MAX_PICKS` picks.
#[verifier::rlimit(80)]
pub fn grow_from(num_rows: i32, num_columns: i32, draws: &Vec<u32>) -> (r: Option<Grid>)
    requires
        3 <= num_rows <= MAX_SIDE,
        3 <= num_columns <= MAX_SIDE,
        draws@.len() >= GROWTH_DRAWS,
    ensures
        r is None <==> grow_spec(num_rows as int, num_columns as int, draws@) is None,
        max_cells(num_rows as int, num_columns as int) <= 1 ==> r is Some,
        r matches Some(g) ==> {
            &&& is_grown(g, num_rows as int, num_columns as int)
            &&& grow_spec(num_rows as int, num_columns as int, draws@) matches Some((cells, order))
            &&& g.cells_view() == cells
            &&& growth_order(cells, num_rows as int, num_columns as int, order)
            &&& 1 <= grid_active(g) <= order.len()
            &&& order.len() <= (if max_cells(num_rows as int, num_columns as int) > 1 { max_cells(num_rows as int, num_columns as int) } else { 1 })
            &&& g.rails.horiz() == filled(num_rows + 1, num_columns as int, Horizontal::Center)
            &&& g.rails.vert() == filled(num_rows as int, num_columns + 1, Vertical::Center)
            &&& g.reachable_rails.horiz() == filled(num_rows + 1, num_columns as int, false)
            &&& g.reachable_rails.vert() == filled(num_rows as int, num_columns + 1, false)
            &&& g.intersections.view() == filled(num_rows + 1, num_columns + 1, Intersection { crossing: Crossing::Empty })
            &&& g.total_rails == 0 && g.reachable_rails_count == 0
        },
{
    let ghost rows = num_rows as int;
    let ghost columns = num_columns as int;
    let root = ivec2(num_columns / 2, num_rows / 2);
    proof {
        lemma_side_product(num_rows as int, num_columns as int);
    }
    let mut solution = Grid::new(num_rows, num_columns, root);
    let mut enabled: Vec<(i32, i32)> = Vec::new();
    enabled.push((root.y, root.x));
    let mut rounds: u32 = 0;
    let mut next: usize = 0;
    proof {
        lemma_side_product((num_rows - 2) as int, (num_columns - 2) as int);
        assert(solution.cells_view() =~~= root_only(rows, columns));
        let none = Seq::new(num_rows as nat, |i: int| Seq::new(num_columns as nat, |j: int| false));
        lemma_active_count_none(none, rows, columns);
        lemma_active_count_update(none, root.y as int, root.x as int, rows, columns);
        assert(none.update(root.y as int, none[root.y as int].update(root.x as int, true)) =~~= solution.cells_view());
    }
    let inner_cells = (num_rows - 2) * (num_columns - 2);
    let max_count = (inner_cells as u64 * MAX_CELLS_PERCENT as u64 / 100) as usize;
    assert(enabled@ =~= seq![(root.y, root.x)]);
    while enabled.len() < max_count
        invariant_except_break
            grow_spec(rows, columns, draws@) == grow_rounds(rows, columns, solution.cells_view(), enabled@, draws@, next as int, rounds as int),
        invariant
            rows == num_rows,
            columns == num_columns,
            3 <= num_rows <= MAX_SIDE,
            3 <= num_columns <= MAX_SIDE,
            draws@.len() >= GROWTH_DRAWS,
            max_count == max_cells(rows, columns),
            root == generated_root(rows, columns),
            is_grown(solution, rows, columns),
            solution.rails.horiz() == filled(num_rows + 1, num_columns as int, Horizontal::Center),
            solution.rails.vert() == filled(num_rows as int, num_columns + 1, Vertical::Center),
            solution.reachable_rails.horiz() == filled(num_rows + 1, num_columns as int, false),
            solution.reachable_rails.vert() == filled(num_rows as int, num_columns + 1, false),
            solution.intersections.view() == filled(num_rows + 1, num_columns + 1, Intersection { crossing: Crossing::Empty }),
            solution.total_rails == 0,
            solution.reachable_rails_count == 0,
            rounds <= GROWTH_ROUNDS,
            next <= rounds * DRAWS_PER_ROUND,
            growth_order(solution.cells_view(), rows, columns, enabled@),
            1 <= grid_active(solution) <= enabled@.len(),
            enabled@.len() <= (if max_count > 1 { max_count as int } else { 1 }),
        ensures
            grow_spec(rows, columns, draws@) == grow_rounds(rows, columns, solution.cells_view(), enabled@, draws@, next as int, rounds as int)
                || grow_spec(rows, columns, draws@) == Some((solution.cells_view(), enabled@)),
            grow_spec(rows, columns, draws@) == Some((solution.cells_view(), enabled@)) || enabled@.len() >= max_count,
        decreases GROWTH_ROUNDS - rounds,
    {
        if rounds >= GROWTH_ROUNDS {
            break;
        }
        let ghost cells0 = solution.cells_view();
        let (chosen, after) = match pick_cell(&solution, &enabled, draws, next) {
            Some(found) => found,
            None => {
                return None;
            },
        };
        next = after;
        let ghost before = enabled@;
        let (new_row, new_column) = chosen;
        if !(new_row == root.y - 1 && new_column == root.x) {
            proof {
                lemma_active_count_update(cells0, new_row as int, new_column as int, rows, columns);
            }
            solution.cells[new_row as usize][new_column as usize] = true;
            enabled.push((new_row, new_column));
            proof {
                assert(solution.cells_view() =~~= cells0.update(new_row as int, cells0[new_row as int].update(new_column as int, true)));
                let order = enabled@;
                assert forall|k: int| 1 <= k < order.len() implies exists|j: int| 0 <= j < k && eight_adjacent(#[trigger] order[k], order[j]) by {
                    if k < before.len() {
                        let j = choose|j: int| 0 <= j < k && eight_adjacent(before[k], before[j]);
                        assert(order[j] == before[j]);
                    } else {
                        let j = choose|j: int| 0 <= j < before.len() && eight_adjacent(chosen, before[j]);
                        assert(order[j] == before[j]);
                    }
                }
                assert forall|i: int, j: int| 0 <= i < rows && 0 <= j < columns && #[trigger] solution.cells_view()[i][j]
                    implies exists|k: int| 0 <= k < order.len() && order[k] == (i as i32, j as i32) by {
                    if i == new_row && j == new_column {
                        assert(order[order.len() - 1] == (i as i32, j as i32));
                    } else {
                        assert(cells0[i][j]);
                        let k = choose|k: int| 0 <= k < before.len() && before[k] == (i as i32, j as i32);
                        assert(order[k] == before[k]);
                    }
                }
            }
        }
        rounds += 1;
    }
    Some(solution)
}

/// Grows a candidate solution from its root with fresh random draws; see
/// `grow_from`.
pub fn generate_grid(num_rows: i32, num_columns: i32) -> (r: Option<Grid>)
    requires
        3 <= num_rows <= MAX_SIDE,
        3 <= num_columns <= MAX_SIDE,
    ensures
        max_cells(num_rows as int, num_columns as int) <= 1 ==> r is Some,
        r matches Some(g) ==> {
            &&& is_grown(g, num_rows as int, num_columns as int)
            &&& exists|order: Seq<(i32, i32)>| growth_order(g.cells_view(), num_rows as int, num_columns as int, order)
                && 1 <= grid_active(g) <= #[trigger] order.len()
                && order.len() <= (if max_cells(num_rows as int, num_columns as int) > 1 { max_cells(num_rows as int, num_columns as int) } else { 1 })
            &&& g.rails.horiz() == filled(num_rows + 1, num_columns as int, Horizontal::Center)
            &&& g.rails.vert() == filled(num_rows as int, num_columns + 1, Vertical::Center)
            &&& g.reachable_rails.horiz() == filled(num_rows + 1, num_columns as int, false)
            &&& g.reachable_rails.vert() == filled(num_rows as int, num_columns + 1, false)
            &&& g.intersections.view() == filled(num_rows + 1, num_columns + 1, Intersection { crossing: Crossing::Empty })
            &&& g.total_rails == 0 && g.reachable_rails_count == 0
        },
{
    let mut draws: Vec<u32> = Vec::new();
    while draws.len() < GROWTH_DRAWS
        invariant
            draws@.len() <= GROWTH_DRAWS,
        decreases GROWTH_DRAWS - draws@.len(),
    {
        draws.push(random_u32());
    }
    let r = grow_from(num_rows, num_columns, &draws);
    proof {
        if r is Some {
            let order = grow_spec(num_rows as int, num_columns as int, draws@)->Some_0.1;
            assert(growth_order(r->Some_0.cells_view(), num_rows as int, num_columns as int, order));
        }
    }
    r
}

proof fn lemma_single_row_sum(cells: Seq<Seq<bool>>, rows: int, columns: int, r: int, c: int, i: int, k: int)
    requires
        cells == root_only(rows, columns),
        3 <= rows <= MAX_SIDE,
        3 <= columns <= MAX_SIDE,
        r == rows / 2,
        c == columns / 2,
        1 <= i < rows,
        1 <= k <= columns,
    ensures
        rail_row_sum(cells, i, k) == if i == r {
            if k <= c { 0int } else if k == c + 1 { 2 } else { 3 }
        } else if i == r + 1 {
            if k <= c { 0int } else { 1 }
        } else {
            0
        },
    decreases k,
{
    if k > 1 {
        lemma_single_row_sum(cells, rows, columns, r, c, i, k - 1);
    }
}

proof fn lemma_single_rail_sum(cells: Seq<Seq<bool>>, rows: int, columns: int, r: int, c: int, i: int)
    requires
        cells == root_only(rows, columns),
        3 <= rows <= MAX_SIDE,
        3 <= columns <= MAX_SIDE,
        r == rows / 2,
        c == columns / 2,
        1 <= i <= rows,
    ensures
        rail_sum(cells, i, columns) == if i <= r { 0int } else if i == r + 1 { 3 } else { 4 },
    decreases i,
{
    if i > 1 {
        lemma_single_rail_sum(cells, rows, columns, r, c, i - 1);
        lemma_single_row_sum(cells, rows, columns, r, c, i - 1, columns);
    }
}

/// A grid whose only active cell is the root in its middle has four rails,
/// and its loop closes around that cell in four steps.
pub proof fn lemma_root_only_loop(rows: int, columns: int)
    requires
        3 <= rows <= MAX_SIDE,
        3 <= columns <= MAX_SIDE,
    ensures
        trace_of(root_only(rows, columns), rows, columns, rows / 2, columns / 2) matches Ok((t, n)) && n == 4,
        rail_sum(root_only(rows, columns), rows, columns) == 4,
{
    let cells = root_only(rows, columns);
    let r = rows / 2;
    let c = columns / 2;
    lemma_single_rail_sum(cells, rows, columns, r, c, rows);
    let s0 = initial_trace_state(cells, rows, columns, r, c);
    assert(s0.horiz[r][c] == Horizontal::Right);
    assert(s0.vert[r][c + 1] == Vertical::Bottom);
    assert(s0.vert[r - 1][c + 1] == Vertical::Center);
    assert(s0.crossings[r][c + 1].crossing == Crossing::Single);
    let s1 = trace_step(s0)->Ok_0;
    assert(trace_step(s0) is Ok && s1.row == r && s1.column == c + 1 && !s1.horizontal && !s1.backwards);
    assert(s1.horiz == s0.horiz && s1.vert == s0.vert && s1.crossings == s0.crossings);
    assert(s0.horiz[r + 1][c + 1] == Horizontal::Center);
    assert(s0.horiz[r + 1][c] == Horizontal::Left);
    assert(s0.crossings[r + 1][c + 1].crossing == Crossing::Single);
    let s2 = trace_step(s1)->Ok_0;
    assert(trace_step(s1) is Ok && s2.row == r + 1 && s2.column == c && s2.horizontal && !s2.backwards);
    assert(s2.horiz == s0.horiz && s2.vert == s0.vert && s2.crossings == s0.crossings);
    assert(s0.vert[r + 1][c] == Vertical::Center);
    assert(s0.vert[r][c] == Vertical::Top);
    assert(s0.crossings[r + 1][c].crossing == Crossing::Single);
    let s3 = trace_step(s2)->Ok_0;
    assert(trace_step(s2) is Ok && s3.row == r && s3.column == c && !s3.horizontal && !s3.backwards);
    assert(s3.horiz == s0.horiz && s3.vert == s0.vert && s3.crossings == s0.crossings);
    assert(s0.crossings[r][c].crossing == Crossing::Single);
    let s4 = trace_step(s3)->Ok_0;
    assert(trace_step(s3) is Ok && s4.row == r && s4.column == c && s4.horizontal);
    assert(trace_from(s3, r, c, 3) == Ok::<(TraceState, int), TraceFault>((s4, 4)));
    assert(trace_from(s2, r, c, 2) == trace_from(s3, r, c, 3));
    assert(trace_from(s1, r, c, 1) == trace_from(s2, r, c, 2));
    assert(trace_from(s0, r, c, 0) == trace_from(s1, r, c, 1));
}

} // verus!
