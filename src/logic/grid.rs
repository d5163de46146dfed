use crate::generate_nested_vec;
use crate::logic::intersection::{Crossing, Intersection, Intersections};
use crate::logic::rails::{is_matrix, matrix_view, Horizontal, Rails, Vertical};
use vstd::prelude::*;

verus! {

pub type Cell = bool;

/// Largest number of cells of a grid: keeps every count of cells and rails
/// within `i32`.
pub const MAX_CELLS: i32 = 100000000;

/// A grid of `rows` x `columns` cells may be held: at least one of each, and
/// at most `MAX_CELLS` cells.
pub open spec fn fits(rows: int, columns: int) -> bool {
    1 <= rows <= MAX_CELLS && 1 <= columns <= MAX_CELLS && rows * columns <= MAX_CELLS
}

/// A position on the grid: `x` is the column, `y` the row.
#[derive(Debug, Copy, Clone, PartialEq, Eq, Structural)]
pub struct IVec2 {
    pub x: i32,
    pub y: i32,
}

pub fn ivec2(x: i32, y: i32) -> (r: IVec2)
    ensures
        r.x == x,
        r.y == y,
{
    IVec2 { x, y }
}

/// The cells of a puzzle, the cells that the player may not toggle, and what
/// is derived from them: the rails, the crossings and which rails the loop
/// through the root reaches.
#[derive(Clone)]
pub struct Grid {
    pub num_rows: i32,
    pub num_columns: i32,
    pub cells: Vec<Vec<Cell>>,
    pub fixed_cells: Vec<Vec<Cell>>,
    pub rails: Rails<Horizontal, Vertical>,
    pub reachable_rails: Rails<bool, bool>,
    pub fixed_rails: Rails<bool, bool>,
    pub intersections: Intersections,
    pub root: IVec2,
    pub total_rails: i32,
    pub reachable_rails_count: i32,
}

/// A matrix entry, or `false` where the position lies outside it.
pub open spec fn entry(m: Seq<Seq<bool>>, r: int, c: int) -> bool {
    0 <= r < m.len() && 0 <= c < m[r].len() && m[r][c]
}

/// The rail on the horizontal edge above cell `(r, c)`, from the cells alone.
pub open spec fn horizontal_rail(cells: Seq<Seq<bool>>, rows: int, columns: int, r: int, c: int) -> Horizontal {
    if 1 <= r < rows && 1 <= c < columns && cells[r][c] != cells[r - 1][c] {
        if cells[r][c] {
            Horizontal::Right
        } else {
            Horizontal::Left
        }
    } else {
        Horizontal::Center
    }
}

/// The rail on the vertical edge left of cell `(r, c)`, from the cells alone.
pub open spec fn vertical_rail(cells: Seq<Seq<bool>>, rows: int, columns: int, r: int, c: int) -> Vertical {
    if 1 <= r < rows && 1 <= c < columns && cells[r][c] != cells[r][c - 1] {
        if cells[r][c] {
            Vertical::Top
        } else {
            Vertical::Bottom
        }
    } else {
        Vertical::Center
    }
}

/// The crossing at the vertex above-left of cell `(r, c)`, from the four
/// cells around it.
pub open spec fn crossing_at(cells: Seq<Seq<bool>>, rows: int, columns: int, r: int, c: int) -> Crossing {
    if 1 <= r < rows && 1 <= c < columns {
        let current = cells[r][c];
        let above = cells[r - 1][c];
        let left = cells[r][c - 1];
        let above_left = cells[r - 1][c - 1];
        if current && above_left && !above && !left {
            Crossing::TopRightToBottomLeft
        } else if !current && !above_left && above && left {
            Crossing::TopLeftToBottomRight
        } else if current || above || left || above_left {
            Crossing::Single
        } else {
            Crossing::Empty
        }
    } else {
        Crossing::Empty
    }
}

pub open spec fn derived_horizontal(cells: Seq<Seq<bool>>, rows: int, columns: int) -> Seq<Seq<Horizontal>> {
    Seq::new((rows + 1) as nat, |r: int| Seq::new(columns as nat, |c: int| horizontal_rail(cells, rows, columns, r, c)))
}

pub open spec fn derived_vertical(cells: Seq<Seq<bool>>, rows: int, columns: int) -> Seq<Seq<Vertical>> {
    Seq::new(rows as nat, |r: int| Seq::new((columns + 1) as nat, |c: int| vertical_rail(cells, rows, columns, r, c)))
}

pub open spec fn derived_crossings(cells: Seq<Seq<bool>>, rows: int, columns: int) -> Seq<Seq<Intersection>> {
    Seq::new(
        (rows + 1) as nat,
        |r: int| Seq::new((columns + 1) as nat, |c: int| Intersection { crossing: crossing_at(cells, rows, columns, r, c) }),
    )
}

/// A `rows` x `columns` matrix of `v`.
pub open spec fn filled<T>(rows: int, columns: int, v: T) -> Seq<Seq<T>> {
    Seq::new(rows as nat, |r: int| Seq::new(columns as nat, |c: int| v))
}

/// Number of differing neighbour pairs that give a rail in row `r`, over the
/// columns `1..c`.
pub open spec fn rail_row_sum(cells: Seq<Seq<bool>>, r: int, c: int) -> int
    decreases c,
{
    if c <= 1 {
        0
    } else {
        rail_row_sum(cells, r, c - 1) + (if cells[r][c - 1] != cells[r - 1][c - 1] { 1int } else { 0 }) + (
        if cells[r][c - 1] != cells[r][c - 2] { 1int } else { 0 })
    }
}

/// Number of rails over the rows `1..r` and the columns `1..columns`.
pub open spec fn rail_sum(cells: Seq<Seq<bool>>, r: int, columns: int) -> int
    decreases r,
{
    if r <= 1 {
        0
    } else {
        rail_sum(cells, r - 1, columns) + rail_row_sum(cells, r - 1, columns)
    }
}

pub proof fn lemma_rail_row_sum_bounds(cells: Seq<Seq<bool>>, r: int, c: int)
    requires
        c >= 0,
    ensures
        0 <= rail_row_sum(cells, r, c) <= 2 * c,
    decreases c,
{
    if c > 1 {
        lemma_rail_row_sum_bounds(cells, r, c - 1);
    }
}

pub proof fn lemma_rail_sum_bounds(cells: Seq<Seq<bool>>, r: int, columns: int)
    requires
        columns >= 0,
    ensures
        r >= 1 ==> 0 <= rail_sum(cells, r, columns) <= 2 * (r * columns),
    decreases r,
{
    if r > 1 {
        lemma_rail_sum_bounds(cells, r - 1, columns);
        lemma_rail_row_sum_bounds(cells, r - 1, columns);
        assert(2 * ((r - 1) * columns) + 2 * columns == 2 * (r * columns)) by (nonlinear_arith);
    }
}

/// A part of the rows of a grid that fits has fewer cells than the grid.
pub proof fn lemma_row_product(a: int, rows: int, columns: int)
    requires
        0 <= a <= rows,
        0 <= columns,
        rows * columns <= MAX_CELLS,
    ensures
        0 <= a * columns <= MAX_CELLS,
{
    assert(0 <= a * columns <= rows * columns) by (nonlinear_arith)
        requires
            0 <= a <= rows,
            0 <= columns,
    ;
}

impl Grid {
    pub open spec fn cells_view(&self) -> Seq<Seq<bool>> {
        matrix_view(self.cells@)
    }

    pub open spec fn fixed_view(&self) -> Seq<Seq<bool>> {
        matrix_view(self.fixed_cells@)
    }

    /// The dimensions are within bounds and every matrix has the shape that
    /// they give.
    pub open spec fn wf(&self) -> bool {
        let rows = self.num_rows as int;
        let columns = self.num_columns as int;
        &&& fits(rows, columns)
        &&& is_matrix(self.cells@, rows, columns)
        &&& is_matrix(self.fixed_cells@, rows, columns)
        &&& self.rails.has_shape(rows, columns)
        &&& self.reachable_rails.has_shape(rows, columns)
        &&& self.fixed_rails.has_shape(rows, columns)
        &&& self.intersections.has_shape(rows + 1, columns + 1)
        &&& 0 <= self.total_rails <= 2 * MAX_CELLS
        &&& 0 <= self.reachable_rails_count <= 10000
    }

    /// The rails and crossings of the grid's cells, before any trace.
    pub open spec fn is_derived(&self) -> bool {
        let cells = self.cells_view();
        let rows = self.num_rows as int;
        let columns = self.num_columns as int;
        &&& self.rails.horiz() == derived_horizontal(cells, rows, columns)
        &&& self.rails.vert() == derived_vertical(cells, rows, columns)
        &&& self.intersections.view() == derived_crossings(cells, rows, columns)
        &&& self.reachable_rails.horiz() == filled(rows + 1, columns, false)
        &&& self.reachable_rails.vert() == filled(rows, columns + 1, false)
    }

    /// A grid of the given cells with nothing derived yet: every rail is
    /// `Center`, every crossing `Empty`, no rail reachable.
    pub fn new_from_cells(
        num_rows: i32,
        num_columns: i32,
        root: IVec2,
        cells: Vec<Vec<Cell>>,
        fixed_cells: Vec<Vec<Cell>>,
    ) -> (r: Grid)
        requires
            fits(num_rows as int, num_columns as int),
            is_matrix(cells@, num_rows as int, num_columns as int),
            is_matrix(fixed_cells@, num_rows as int, num_columns as int),
        ensures
            r.wf(),
            r.num_rows == num_rows,
            r.num_columns == num_columns,
            r.root == root,
            r.cells == cells,
            r.fixed_cells == fixed_cells,
            r.rails.horiz() == filled(num_rows + 1, num_columns as int, Horizontal::Center),
            r.rails.vert() == filled(num_rows as int, num_columns + 1, Vertical::Center),
            r.reachable_rails.horiz() == filled(num_rows + 1, num_columns as int, false),
            r.reachable_rails.vert() == filled(num_rows as int, num_columns + 1, false),
            r.fixed_rails.horiz() == filled(num_rows + 1, num_columns as int, false),
            r.fixed_rails.vert() == filled(num_rows as int, num_columns + 1, false),
            r.intersections.view() == filled(num_rows + 1, num_columns + 1, Intersection { crossing: Crossing::Empty }),
            r.total_rails == 0,
            r.reachable_rails_count == 0,
    {
        let rails = Rails::new(num_rows, num_columns, Horizontal::Center, Vertical::Center);
        let reachable_rails = Rails::new(num_rows, num_columns, false, false);
        let fixed_rails = Rails::new(num_rows, num_columns, false, false);
        let intersections = Intersections::new(num_rows, num_columns);
        let r = Grid {
            num_rows,
            num_columns,
            cells,
            fixed_cells,
            rails,
            reachable_rails,
            fixed_rails,
            root,
            intersections,
            total_rails: 0,
            reachable_rails_count: 0,
        };
        assert(r.rails.horiz() =~~= filled(num_rows + 1, num_columns as int, Horizontal::Center));
        assert(r.rails.vert() =~~= filled(num_rows as int, num_columns + 1, Vertical::Center));
        assert(r.reachable_rails.horiz() =~~= filled(num_rows + 1, num_columns as int, false));
        assert(r.reachable_rails.vert() =~~= filled(num_rows as int, num_columns + 1, false));
        assert(r.fixed_rails.horiz() =~~= filled(num_rows + 1, num_columns as int, false));
        assert(r.fixed_rails.vert() =~~= filled(num_rows as int, num_columns + 1, false));
        assert(r.intersections.view() =~~= filled(num_rows + 1, num_columns + 1, Intersection { crossing: Crossing::Empty }));
        r
    }

    /// An empty puzzle of the given size: only the root is active; the border,
    /// the root and the cell above it are locked.
    pub fn new(num_rows: i32, num_columns: i32, root: IVec2) -> (r: Self)
        requires
            fits(num_rows as int, num_columns as int),
            1 <= root.y < num_rows,
            0 <= root.x < num_columns,
        ensures
            r.wf(),
            r.num_rows == num_rows,
            r.num_columns == num_columns,
            r.root == root,
            forall|i: int, j: int| 0 <= i < num_rows && 0 <= j < num_columns
                ==> #[trigger] r.cells@[i]@[j] == (i == root.y && j == root.x),
            forall|i: int, j: int| 0 <= i < num_rows && 0 <= j < num_columns
                ==> #[trigger] r.fixed_cells@[i]@[j] == (i == 0 || i == num_rows - 1 || j == 0 || j == num_columns - 1
                    || (j == root.x && (i == root.y || i == root.y - 1))),
            r.rails.horiz() == filled(num_rows + 1, num_columns as int, Horizontal::Center),
            r.rails.vert() == filled(num_rows as int, num_columns + 1, Vertical::Center),
            r.reachable_rails.horiz() == filled(num_rows + 1, num_columns as int, false),
            r.reachable_rails.vert() == filled(num_rows as int, num_columns + 1, false),
            r.fixed_rails.horiz() == filled(num_rows + 1, num_columns as int, false),
            r.fixed_rails.vert() == filled(num_rows as int, num_columns + 1, false),
            r.intersections.view() == filled(num_rows + 1, num_columns + 1, Intersection { crossing: Crossing::Empty }),
            r.total_rails == 0,
            r.reachable_rails_count == 0,
    {
        let mut cells = generate_nested_vec(num_rows as usize, num_columns as usize, false);
        let mut fixed_cells = generate_nested_vec(num_rows as usize, num_columns as usize, false);
        let ry = root.y as usize;
        let rx = root.x as usize;
        cells[ry][rx] = true;
        fixed_cells[ry][rx] = true;
        fixed_cells[ry - 1][rx] = true;
        let rows = num_rows as usize;
        let columns = num_columns as usize;
        let mut i_row: usize = 0;
        while i_row < rows
            invariant
                i_row <= rows,
                rows == num_rows,
                rows >= 1,
                columns >= 1,
                columns == num_columns,
                is_matrix(fixed_cells@, rows as int, columns as int),
                forall|i: int, j: int| 0 <= i < rows && 0 <= j < columns
                    ==> #[trigger] fixed_cells@[i]@[j] == ((j == root.x && (i == root.y || i == root.y - 1))
                        || ((j == 0 || j == columns - 1) && i < i_row)),
            decreases rows - i_row,
        {
            fixed_cells[i_row][0] = true;
            fixed_cells[i_row][columns - 1] = true;
            i_row += 1;
        }
        let mut i_column: usize = 0;
        while i_column < columns
            invariant
                i_column <= columns,
                rows == num_rows,
                rows >= 1,
                columns >= 1,
                columns == num_columns,
                is_matrix(fixed_cells@, rows as int, columns as int),
                forall|i: int, j: int| 0 <= i < rows && 0 <= j < columns
                    ==> #[trigger] fixed_cells@[i]@[j] == ((j == root.x && (i == root.y || i == root.y - 1))
                        || j == 0 || j == columns - 1 || ((i == 0 || i == rows - 1) && j < i_column)),
            decreases columns - i_column,
        {
            fixed_cells[0][i_column] = true;
            fixed_cells[rows - 1][i_column] = true;
            i_column += 1;
        }
        Self::new_from_cells(num_rows, num_columns, root, cells, fixed_cells)
    }

    pub fn rows(&self) -> (r: i32)
        ensures
            r == self.num_rows,
    {
        self.num_rows
    }

    pub fn columns(&self) -> (r: i32)
        ensures
            r == self.num_columns,
    {
        self.num_columns
    }
}

/// The entry at `row`, `column`.
pub fn get<T>(vec_vec: &Vec<Vec<T>>, row: i32, column: i32) -> (r: &T)
    requires
        0 <= row < vec_vec@.len(),
        0 <= column < vec_vec@[row as int]@.len(),
    ensures
        *r == vec_vec@[row as int]@[column as int],
{
    &vec_vec[row as usize][column as usize]
}

/// The entry at `row`, `column`, to be changed in place.
pub fn get_mut<T>(vec_vec: &mut Vec<Vec<T>>, row: i32, column: i32) -> (r: &mut T)
    requires
        0 <= row < old(vec_vec)@.len(),
        0 <= column < old(vec_vec)@[row as int]@.len(),
    ensures
        *r == old(vec_vec)@[row as int]@[column as int],
        final(vec_vec)@.len() == old(vec_vec)@.len(),
        forall|i: int| 0 <= i < old(vec_vec)@.len() && i != row ==> final(vec_vec)@[i] == old(vec_vec)@[i],
        final(vec_vec)@[row as int]@ == old(vec_vec)@[row as int]@.update(column as int, *final(r)),
{
    &mut vec_vec[row as usize][column as usize]
}

pub fn get_cell(grid: &Grid, row: i32, column: i32) -> (r: &Cell)
    requires
        grid.wf(),
        0 <= row < grid.num_rows,
        0 <= column < grid.num_columns,
    ensures
        *r == grid.cells@[row as int]@[column as int],
{
    &grid.cells[row as usize][column as usize]
}

pub fn get_cell_mut(grid: &mut Grid, row: i32, column: i32) -> (r: &mut Cell)
    requires
        old(grid).wf(),
        0 <= row < old(grid).num_rows,
        0 <= column < old(grid).num_columns,
    ensures
        *r == old(grid).cells@[row as int]@[column as int],
        final(grid).cells@.len() == old(grid).cells@.len(),
        forall|i: int| 0 <= i < old(grid).cells@.len() && i != row ==> final(grid).cells@[i] == old(grid).cells@[i],
        final(grid).cells@[row as int]@ == old(grid).cells@[row as int]@.update(column as int, *final(r)),
        *final(grid) == (Grid { cells: final(grid).cells, ..*old(grid) }),
{
    &mut grid.cells[row as usize][column as usize]
}

/// Number of active cells among the four that share an edge with `(row, column)`.
pub fn count_neighbours(grid: &Grid, row: i32, column: i32) -> (r: i32)
    requires
        grid.wf(),
        1 <= row < grid.num_rows - 1,
        1 <= column < grid.num_columns - 1,
    ensures
        r == (if grid.cells@[row + 1]@[column as int] { 1int } else { 0 })
            + (if grid.cells@[row - 1]@[column as int] { 1int } else { 0 })
            + (if grid.cells@[row as int]@[column + 1] { 1int } else { 0 })
            + (if grid.cells@[row as int]@[column - 1] { 1int } else { 0 }),
{
    let below = if *get_cell(grid, row + 1, column) { 1i32 } else { 0 };
    let above = if *get_cell(grid, row - 1, column) { 1i32 } else { 0 };
    let right = if *get_cell(grid, row, column + 1) { 1i32 } else { 0 };
    let left = if *get_cell(grid, row, column - 1) { 1i32 } else { 0 };
    below + above + right + left
}

/// The cell lies strictly inside the border.
pub fn in_range(grid: &Grid, row: i32, column: i32) -> (r: bool)
    requires
        grid.wf(),
    ensures
        r == (0 < row < grid.num_rows - 1 && 0 < column < grid.num_columns - 1),
{
    row > 0 && row < grid.num_rows - 1 && column > 0 && column < grid.num_columns - 1
}

impl Grid {
    /// Recomputes, from the cells alone, every rail and every crossing, clears
    /// the reachable flags and counts the rails.
    pub fn derive_rails(&mut self)
        requires
            old(self).wf(),
        ensures
            final(self).wf(),
            final(self).is_derived(),
            final(self).total_rails == rail_sum(old(self).cells_view(), old(self).num_rows as int, old(self).num_columns as int),
            final(self).reachable_rails_count == 0,
            final(self).num_rows == old(self).num_rows,
            final(self).num_columns == old(self).num_columns,
            final(self).cells == old(self).cells,
            final(self).fixed_cells == old(self).fixed_cells,
            final(self).fixed_rails == old(self).fixed_rails,
            final(self).root == old(self).root,
    {
        let rows = self.num_rows as usize;
        let columns = self.num_columns as usize;
        let ghost cells = self.cells_view();
        let mut horizontal: Vec<Vec<Horizontal>> = Vec::new();
        let mut i_row: usize = 0;
        while i_row <= rows
            invariant
                self.wf(),
                cells == self.cells_view(),
                rows == self.num_rows,
                columns == self.num_columns,
                i_row <= rows + 1,
                horizontal@.len() == i_row,
                forall|k: int| 0 <= k < i_row ==> (#[trigger] horizontal@[k])@ == derived_horizontal(cells, rows as int, columns as int)[k],
            decreases rows + 1 - i_row,
        {
            let mut row: Vec<Horizontal> = Vec::new();
            let mut i_column: usize = 0;
            while i_column < columns
                invariant
                    self.wf(),
                    cells == self.cells_view(),
                    rows == self.num_rows,
                    columns == self.num_columns,
                    i_row <= rows,
                    i_column <= columns,
                    row@ == Seq::new(i_column as nat, |c: int| horizontal_rail(cells, rows as int, columns as int, i_row as int, c)),
                decreases columns - i_column,
            {
                let mut direction = Horizontal::Center;
                if 1 <= i_row && i_row < rows && 1 <= i_column {
                    let current = self.cells[i_row][i_column];
                    let above = self.cells[i_row - 1][i_column];
                    if current != above {
                        direction = if current { Horizontal::Right } else { Horizontal::Left };
                    }
                }
                row.push(direction);
                i_column += 1;
                assert(row@ =~= Seq::new(i_column as nat, |c: int| horizontal_rail(cells, rows as int, columns as int, i_row as int, c)));
            }
            horizontal.push(row);
            i_row += 1;
        }
        let mut vertical: Vec<Vec<Vertical>> = Vec::new();
        let mut i_row: usize = 0;
        while i_row < rows
            invariant
                self.wf(),
                cells == self.cells_view(),
                rows == self.num_rows,
                columns == self.num_columns,
                i_row <= rows,
                vertical@.len() == i_row,
                forall|k: int| 0 <= k < i_row ==> (#[trigger] vertical@[k])@ == derived_vertical(cells, rows as int, columns as int)[k],
            decreases rows - i_row,
        {
            let mut row: Vec<Vertical> = Vec::new();
            let mut i_column: usize = 0;
            while i_column <= columns
                invariant
                    self.wf(),
                    cells == self.cells_view(),
                    rows == self.num_rows,
                    columns == self.num_columns,
                    i_row < rows,
                    i_column <= columns + 1,
                    row@ == Seq::new(i_column as nat, |c: int| vertical_rail(cells, rows as int, columns as int, i_row as int, c)),
                decreases columns + 1 - i_column,
            {
                let mut direction = Vertical::Center;
                if 1 <= i_row && 1 <= i_column && i_column < columns {
                    let current = self.cells[i_row][i_column];
                    let left = self.cells[i_row][i_column - 1];
                    if current != left {
                        direction = if current { Vertical::Top } else { Vertical::Bottom };
                    }
                }
                row.push(direction);
                i_column += 1;
                assert(row@ =~= Seq::new(i_column as nat, |c: int| vertical_rail(cells, rows as int, columns as int, i_row as int, c)));
            }
            vertical.push(row);
            i_row += 1;
        }
        let mut crossings: Vec<Vec<Intersection>> = Vec::new();
        let mut i_row: usize = 0;
        while i_row <= rows
            invariant
                self.wf(),
                cells == self.cells_view(),
                rows == self.num_rows,
                columns == self.num_columns,
                i_row <= rows + 1,
                crossings@.len() == i_row,
                forall|k: int| 0 <= k < i_row ==> (#[trigger] crossings@[k])@ == derived_crossings(cells, rows as int, columns as int)[k],
            decreases rows + 1 - i_row,
        {
            let mut row: Vec<Intersection> = Vec::new();
            let mut i_column: usize = 0;
            while i_column <= columns
                invariant
                    self.wf(),
                    cells == self.cells_view(),
                    rows == self.num_rows,
                    columns == self.num_columns,
                    i_row <= rows,
                    i_column <= columns + 1,
                    row@ == Seq::new(i_column as nat, |c: int| Intersection { crossing: crossing_at(cells, rows as int, columns as int, i_row as int, c) }),
                decreases columns + 1 - i_column,
            {
                let mut crossing = Crossing::Empty;
                if 1 <= i_row && i_row < rows && 1 <= i_column && i_column < columns {
                    let current = self.cells[i_row][i_column];
                    let above = self.cells[i_row - 1][i_column];
                    let left = self.cells[i_row][i_column - 1];
                    let above_left = self.cells[i_row - 1][i_column - 1];
                    crossing = if current && above_left && !above && !left {
                        Crossing::TopRightToBottomLeft
                    } else if !current && !above_left && above && left {
                        Crossing::TopLeftToBottomRight
                    } else if current || above || left || above_left {
                        Crossing::Single
                    } else {
                        Crossing::Empty
                    };
                }
                row.push(Intersection { crossing });
                i_column += 1;
                assert(row@ =~= Seq::new(i_column as nat, |c: int| Intersection { crossing: crossing_at(cells, rows as int, columns as int, i_row as int, c) }));
            }
            crossings.push(row);
            i_row += 1;
        }
        let total = count_rails(&self.cells, self.num_rows, self.num_columns);
        self.rails = Rails { horizontal, vertical };
        self.reachable_rails = Rails::new(self.num_rows, self.num_columns, false, false);
        self.intersections = Intersections { inner: crossings };
        self.total_rails = total;
        self.reachable_rails_count = 0;
        proof {
            lemma_row_product(rows as int, rows as int, columns as int);
            lemma_rail_sum_bounds(cells, rows as int, columns as int);
        }
        assert(self.rails.horiz() =~~= derived_horizontal(cells, rows as int, columns as int));
        assert(self.rails.vert() =~~= derived_vertical(cells, rows as int, columns as int));
        assert(self.intersections.view() =~~= derived_crossings(cells, rows as int, columns as int));
        assert(self.reachable_rails.horiz() =~~= filled(rows + 1, columns as int, false));
        assert(self.reachable_rails.vert() =~~= filled(rows as int, columns + 1, false));
    }
}

/// Number of rails that the cells give: pairs of edge-sharing cells, away
/// from the first row and column, of which exactly one is active.
pub fn count_rails(cells: &Vec<Vec<Cell>>, num_rows: i32, num_columns: i32) -> (r: i32)
    requires
        fits(num_rows as int, num_columns as int),
        is_matrix(cells@, num_rows as int, num_columns as int),
    ensures
        r == rail_sum(matrix_view(cells@), num_rows as int, num_columns as int),
{
    let ghost view = matrix_view(cells@);
    let rows = num_rows as usize;
    let columns = num_columns as usize;
    let mut count: i32 = 0;
    let mut i_row: usize = 1;
    while i_row < rows
        invariant
            1 <= i_row <= rows,
            rows == num_rows,
            columns == num_columns,
            fits(rows as int, columns as int),
            is_matrix(cells@, rows as int, columns as int),
            view == matrix_view(cells@),
            count == rail_sum(view, i_row as int, columns as int),
        decreases rows - i_row,
    {
        let mut i_column: usize = 1;
        proof {
            lemma_rail_sum_bounds(view, i_row as int, columns as int);
            lemma_row_product(i_row as int, rows as int, columns as int);
        }
        while i_column < columns
            invariant
                1 <= i_row < rows,
                1 <= i_column <= columns,
                rows == num_rows,
                columns == num_columns,
                fits(rows as int, columns as int),
                i_row * columns <= MAX_CELLS,
                0 <= rail_sum(view, i_row as int, columns as int) <= 2 * (i_row * columns),
                is_matrix(cells@, rows as int, columns as int),
                view == matrix_view(cells@),
                count == rail_sum(view, i_row as int, columns as int) + rail_row_sum(view, i_row as int, i_column as int),
            decreases columns - i_column,
        {
            proof {
                lemma_rail_row_sum_bounds(view, i_row as int, i_column as int);
            }
            let current = cells[i_row][i_column];
            if current != cells[i_row - 1][i_column] {
                count += 1;
            }
            if current != cells[i_row][i_column - 1] {
                count += 1;
            }
            i_column += 1;
        }
        i_row += 1;
    }
    count
}

} // verus!
