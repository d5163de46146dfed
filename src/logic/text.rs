use crate::logic::grid::{fits, Grid, IVec2, MAX_CELLS};
use crate::logic::intersection::{Intersections, crossing_char, crossing_to_char, horiz_char, horiz_to_char, vert_char, vert_to_char};
use crate::logic::rails::{is_matrix, matrix_view};
use vstd::prelude::*;
use vstd::string::*;

verus! {

/// Relies on String::push: the character is appended.
#[verifier::external_body]
pub(crate) fn push_char(s: &mut String, c: char)
    ensures
        final(s)@ == old(s)@.push(c),
{
    s.push(c)
}

/// Why a text does not describe a grid.
#[derive(Debug, Copy, Clone, PartialEq, Eq, Structural)]
pub enum GridTextError {
    /// A character that is no cell glyph, at a 1-based line and letter.
    WrongGlyph { line: usize, letter: usize },
    /// No `%` marks the root.
    MissingRoot,
    /// The grid would have no column, or more rows or columns than allowed.
    BadSize,
}

/// The glyph of a cell: `%` the root, `@` active and locked, `O` active,
/// `.` inactive and locked, ` ` inactive.
pub open spec fn cell_glyph(is_root: bool, cell: bool, fixed: bool) -> char {
    if is_root {
        '%'
    } else if cell && fixed {
        '@'
    } else if cell {
        'O'
    } else if fixed {
        '.'
    } else {
        ' '
    }
}

/// What a glyph says: whether it is the root, active, locked.
pub open spec fn glyph_meaning(c: char) -> Option<(bool, bool, bool)> {
    if c == '%' {
        Some((true, true, true))
    } else if c == '@' {
        Some((false, true, true))
    } else if c == 'O' {
        Some((false, true, false))
    } else if c == '.' {
        Some((false, false, true))
    } else if c == ' ' {
        Some((false, false, false))
    } else {
        None
    }
}

/// Row `r` of the grid as text, over the columns `0..c`.
pub open spec fn row_text(g: Grid, r: int, c: int) -> Seq<char>
    decreases c,
{
    if c <= 0 {
        seq![]
    } else {
        row_text(g, r, c - 1).push(
            cell_glyph(g.root.y == r && g.root.x == c - 1, g.cells@[r]@[c - 1], g.fixed_cells@[r]@[c - 1]),
        )
    }
}

/// The rows `0..r` of the grid as text, one line each.
pub open spec fn rows_text(g: Grid, r: int) -> Seq<char>
    decreases r,
{
    if r <= 0 {
        seq![]
    } else {
        (rows_text(g, r - 1) + row_text(g, r - 1, g.num_columns as int)).push('\n')
    }
}

/// The grid as text: a line per row, a glyph per cell.
pub open spec fn grid_text(g: Grid) -> Seq<char> {
    rows_text(g, g.num_rows as int)
}

impl Grid {
    /// The grid as text: a line per row, a glyph per cell, `%` at the root.
    pub fn to_string(&self) -> (r: String)
        requires
            self.wf(),
        ensures
            r@ == grid_text(*self),
    {
        let mut s = String::new();
        let rows = self.num_rows as usize;
        let columns = self.num_columns as usize;
        let mut row: usize = 0;
        while row < rows
            invariant
                self.wf(),
                rows == self.num_rows,
                columns == self.num_columns,
                row <= rows,
                s@ == rows_text(*self, row as int),
            decreases rows - row,
        {
            let mut column: usize = 0;
            while column < columns
                invariant
                    self.wf(),
                    rows == self.num_rows,
                    columns == self.num_columns,
                    row < rows,
                    column <= columns,
                    s@ == rows_text(*self, row as int) + row_text(*self, row as int, column as int),
                decreases columns - column,
            {
                let cell = self.cells[row][column];
                let fixed = self.fixed_cells[row][column];
                let letter = if self.root.x as usize == column && self.root.y as usize == row && self.root.x >= 0
                    && self.root.y >= 0 {
                    '%'
                } else if cell && fixed {
                    '@'
                } else if cell {
                    'O'
                } else if fixed {
                    '.'
                } else {
                    ' '
                };
                push_char(&mut s, letter);
                column += 1;
                assert(s@ =~= rows_text(*self, row as int) + row_text(*self, row as int, column as int));
            }
            push_char(&mut s, '\n');
            row += 1;
            assert(s@ =~= rows_text(*self, row as int));
        }
        s
    }
}

/// The grid as text.
pub fn grid_to_string(grid: &Grid) -> (r: String)
    requires
        grid.wf(),
    ensures
        r@ == grid_text(*grid),
{
    grid.to_string()
}

/// What reading a text has gathered so far: the finished lines, the line
/// being read, where the root was seen and where a wrong glyph was met.
pub struct TextState {
    pub cells: Seq<Seq<bool>>,
    pub fixed: Seq<Seq<bool>>,
    pub line_cells: Seq<bool>,
    pub line_fixed: Seq<bool>,
    pub root: Option<(int, int)>,
    pub wrong: Option<(int, int)>,
    /// A carriage return was read and waits for its newline.
    pub pending_cr: bool,
}

pub open spec fn empty_text_state() -> TextState {
    TextState { cells: seq![], fixed: seq![], line_cells: seq![], line_fixed: seq![], root: None, wrong: None, pending_cr: false }
}

/// Where a wrong character of the line being read stands (1-based).
pub open spec fn wrong_here(st: TextState) -> Option<(int, int)> {
    Some((st.cells.len() + 1int, st.line_cells.len() + 1int))
}

/// Reading one more character. A newline, or a carriage return and a
/// newline, ends the line; a glyph adds a cell (and records the root at `%`);
/// anything else, a lone carriage return too, is wrong. After a wrong
/// character the rest is ignored.
pub open spec fn text_step(st: TextState, c: char) -> TextState {
    if st.wrong is Some {
        st
    } else if st.pending_cr && c != '\n' {
        TextState { wrong: wrong_here(st), ..st }
    } else if c == '\n' {
        TextState {
            cells: st.cells.push(st.line_cells),
            fixed: st.fixed.push(st.line_fixed),
            line_cells: seq![],
            line_fixed: seq![],
            pending_cr: false,
            ..st
        }
    } else if c == '\r' {
        TextState { pending_cr: true, ..st }
    } else {
        match glyph_meaning(c) {
            None => TextState { wrong: wrong_here(st), ..st },
            Some((is_root, cell, fixed)) => TextState {
                line_cells: st.line_cells.push(cell),
                line_fixed: st.line_fixed.push(fixed),
                root: if is_root { Some((st.cells.len() as int, st.line_cells.len() as int)) } else { st.root },
                ..st
            },
        }
    }
}

/// Reading the text `t` from state `st`.
pub open spec fn text_fold(st: TextState, t: Seq<char>) -> TextState
    decreases t.len(),
{
    if t.len() == 0 {
        st
    } else {
        text_step(text_fold(st, t.drop_last()), t.last())
    }
}

/// The lines of a read text: the last one counts only when it is not empty.
pub open spec fn finish_lines<T>(done: Seq<Seq<T>>, last: Seq<T>) -> Seq<Seq<T>> {
    if last.len() == 0 {
        done
    } else {
        done.push(last)
    }
}

/// The length of the longest line.
pub open spec fn max_len<T>(lines: Seq<Seq<T>>) -> int
    decreases lines.len(),
{
    if lines.len() == 0 {
        0
    } else {
        let m = max_len(lines.drop_last());
        if lines.last().len() > m {
            lines.last().len() as int
        } else {
            m
        }
    }
}

/// Every line padded with inactive cells to `columns`.
pub open spec fn padded(lines: Seq<Seq<bool>>, columns: int) -> Seq<Seq<bool>> {
    Seq::new(lines.len(), |r: int| Seq::new(columns as nat, |c: int| if c < lines[r].len() { lines[r][c] } else { false }))
}

/// What a grid text describes: its size, root, cells and locks, or why it
/// describes none.
pub open spec fn parse_text(t: Seq<char>) -> Result<(int, int, IVec2, Seq<Seq<bool>>, Seq<Seq<bool>>), GridTextError> {
    let read = text_fold(empty_text_state(), t);
    let st = if read.wrong is None && read.pending_cr { TextState { wrong: wrong_here(read), ..read } } else { read };
    let cells = finish_lines(st.cells, st.line_cells);
    let fixed = finish_lines(st.fixed, st.line_fixed);
    let rows = cells.len() as int;
    let columns = max_len(cells);
    if st.wrong is Some {
        Err(GridTextError::WrongGlyph { line: st.wrong.unwrap().0 as usize, letter: st.wrong.unwrap().1 as usize })
    } else if st.root is None {
        Err(GridTextError::MissingRoot)
    } else if !fits(rows, columns) {
        Err(GridTextError::BadSize)
    } else {
        Ok((rows, columns, IVec2 { x: st.root.unwrap().1 as i32, y: st.root.unwrap().0 as i32 }, padded(cells, columns), padded(fixed, columns)))
    }
}

pub proof fn lemma_fold_append(st: TextState, a: Seq<char>, b: Seq<char>)
    ensures
        text_fold(st, a + b) == text_fold(text_fold(st, a), b),
    decreases b.len(),
{
    if b.len() == 0 {
        assert(a + b =~= a);
    } else {
        lemma_fold_append(st, a, b.drop_last());
        assert((a + b).drop_last() =~= a + b.drop_last());
        assert((a + b).last() == b.last());
    }
}

pub proof fn lemma_wrong_sticks(st: TextState, t: Seq<char>)
    requires
        st.wrong is Some,
    ensures
        text_fold(st, t) == st,
    decreases t.len(),
{
    if t.len() > 0 {
        lemma_wrong_sticks(st, t.drop_last());
    }
}

proof fn lemma_max_len_push(lines: Seq<Seq<bool>>, line: Seq<bool>)
    ensures
        max_len(lines.push(line)) == if line.len() > max_len(lines) { line.len() as int } else { max_len(lines) },
{
    assert(lines.push(line).drop_last() =~= lines);
}

proof fn lemma_max_len_bounds(lines: Seq<Seq<bool>>)
    ensures
        0 <= max_len(lines),
        forall|r: int| 0 <= r < lines.len() ==> (#[trigger] lines[r]).len() <= max_len(lines),
    decreases lines.len(),
{
    if lines.len() > 0 {
        lemma_max_len_bounds(lines.drop_last());
        assert forall|r: int| 0 <= r < lines.len() implies (#[trigger] lines[r]).len() <= max_len(lines) by {
            if r < lines.len() - 1 {
                assert(lines[r] == lines.drop_last()[r]);
            }
        }
    }
}

/// Each line padded with inactive cells up to `columns` entries.
pub(crate) fn pad_lines(lines: &Vec<Vec<bool>>, columns: usize) -> (r: Vec<Vec<bool>>)
    requires
        forall|i: int| 0 <= i < lines@.len() ==> (#[trigger] lines@[i])@.len() <= columns,
    ensures
        is_matrix(r@, lines@.len() as int, columns as int),
        matrix_view(r@) == padded(matrix_view(lines@), columns as int),
{
    let ghost target = padded(matrix_view(lines@), columns as int);
    let mut out: Vec<Vec<bool>> = Vec::new();
    let mut i: usize = 0;
    while i < lines.len()
        invariant
            i <= lines@.len(),
            out@.len() == i,
            target == padded(matrix_view(lines@), columns as int),
            forall|k: int| 0 <= k < i ==> (#[trigger] out@[k])@ == target[k],
        decreases lines@.len() - i,
    {
        let mut row: Vec<bool> = Vec::new();
        let mut j: usize = 0;
        while j < columns
            invariant
                i < lines@.len(),
                j <= columns,
                target == padded(matrix_view(lines@), columns as int),
                row@ =~= target[i as int].take(j as int),
            decreases columns - j,
        {
            let value = if j < lines[i].len() { lines[i][j] } else { false };
            row.push(value);
            j += 1;
            assert(row@ =~= target[i as int].take(j as int));
        }
        assert(row@ =~= target[i as int]);
        out.push(row);
        i += 1;
    }
    assert(matrix_view(out@) =~= target);
    out
}

impl Grid {
    /// Reads a grid from its text: a line per row, a glyph per cell, lines
    /// padded with inactive cells to the longest one.
    #[verifier::rlimit(40)]
    pub fn from_str(s: &str) -> (r: Result<Grid, GridTextError>)
        ensures
            match parse_text(s@) {
                Ok((rows, columns, root, cells, fixed)) => r matches Ok(g) && g.wf() && g.num_rows == rows
                    && g.num_columns == columns && g.root == root && g.cells_view() == cells && g.fixed_view() == fixed
                    && g.total_rails == 0 && g.reachable_rails_count == 0,
                Err(e) => r == Err::<Grid, GridTextError>(e),
            },
    {
        let n = s.unicode_len();
        let mut cells: Vec<Vec<bool>> = Vec::new();
        let mut fixed_cells: Vec<Vec<bool>> = Vec::new();
        let mut line_cells: Vec<bool> = Vec::new();
        let mut line_fixed: Vec<bool> = Vec::new();
        let mut root: Option<(usize, usize)> = None;
        let mut max_columns: usize = 0;
        let mut pending_cr = false;
        let mut i: usize = 0;
        assert(s@.take(0) =~= Seq::<char>::empty());
        assert(matrix_view(cells@) =~= Seq::<Seq<bool>>::empty());
        assert(matrix_view(fixed_cells@) =~= Seq::<Seq<bool>>::empty());
        while i < n
            invariant
                n == s@.len(),
                i <= n,
                cells@.len() <= i,
                line_cells@.len() <= i,
                cells@.len() + line_cells@.len() + (if pending_cr { 1int } else { 0 }) <= i,
                line_fixed@.len() == line_cells@.len(),
                fixed_cells@.len() == cells@.len(),
                forall|k: int| 0 <= k < cells@.len() ==> (#[trigger] cells@[k])@.len() == fixed_cells@[k]@.len(),
                max_columns <= i,
                max_columns == max_len(matrix_view(cells@)),
                text_fold(empty_text_state(), s@.take(i as int)) == (TextState {
                    cells: matrix_view(cells@),
                    fixed: matrix_view(fixed_cells@),
                    line_cells: line_cells@,
                    line_fixed: line_fixed@,
                    root: match root {
                        Some((a, b)) => Some((a as int, b as int)),
                        None => None,
                    },
                    wrong: None,
                    pending_cr: pending_cr,
                }),
            decreases n - i,
        {
            let c = s.get_char(i);
            proof {
                assert(s@.take(i + 1).drop_last() =~= s@.take(i as int));
                assert(s@.take(i + 1).last() == c);
            }
            let ghost before_cells = cells@;
            let ghost before_fixed = fixed_cells@;
            if pending_cr && c != '\n' {
                proof {
                    let st = text_fold(empty_text_state(), s@.take(i + 1));
                    lemma_fold_append(empty_text_state(), s@.take(i + 1), s@.skip(i + 1));
                    assert(s@.take(i + 1) + s@.skip(i + 1) =~= s@);
                    lemma_wrong_sticks(st, s@.skip(i + 1));
                }
                return Err(GridTextError::WrongGlyph { line: cells.len() + 1, letter: line_cells.len() + 1 });
            }
            if c == '\r' {
                pending_cr = true;
            } else if c == '\n' {
                pending_cr = false;
                if line_cells.len() > max_columns {
                    max_columns = line_cells.len();
                }
                proof {
                    lemma_max_len_push(matrix_view(cells@), line_cells@);
                }
                cells.push(line_cells);
                fixed_cells.push(line_fixed);
                line_cells = Vec::new();
                line_fixed = Vec::new();
                assert(matrix_view(cells@) =~= matrix_view(before_cells).push(cells@.last()@));
                assert(matrix_view(fixed_cells@) =~= matrix_view(before_fixed).push(fixed_cells@.last()@));
            } else {
                let (is_root, cell, fixed) = if c == '%' {
                    (true, true, true)
                } else if c == '@' {
                    (false, true, true)
                } else if c == 'O' {
                    (false, true, false)
                } else if c == '.' {
                    (false, false, true)
                } else if c == ' ' {
                    (false, false, false)
                } else {
                    proof {
                        let st = text_fold(empty_text_state(), s@.take(i + 1));
                        lemma_fold_append(empty_text_state(), s@.take(i + 1), s@.skip(i + 1));
                        assert(s@.take(i + 1) + s@.skip(i + 1) =~= s@);
                        lemma_wrong_sticks(st, s@.skip(i + 1));
                    }
                    return Err(GridTextError::WrongGlyph { line: cells.len() + 1, letter: line_cells.len() + 1 });
                };
                if is_root {
                    root = Some((cells.len(), line_cells.len()));
                }
                line_cells.push(cell);
                line_fixed.push(fixed);
            }
            i += 1;
        }
        assert(s@.take(n as int) =~= s@);
        if pending_cr {
            return Err(GridTextError::WrongGlyph { line: cells.len() + 1, letter: line_cells.len() + 1 });
        }
        if line_cells.len() > 0 {
            if line_cells.len() > max_columns {
                max_columns = line_cells.len();
            }
            proof {
                lemma_max_len_push(matrix_view(cells@), line_cells@);
            }
            let ghost before_cells = cells@;
            let ghost before_fixed = fixed_cells@;
            cells.push(line_cells);
            fixed_cells.push(line_fixed);
            assert(matrix_view(cells@) =~= matrix_view(before_cells).push(cells@.last()@));
            assert(matrix_view(fixed_cells@) =~= matrix_view(before_fixed).push(fixed_cells@.last()@));
        }
        let (root_row, root_column) = match root {
            Some(position) => position,
            None => {
                return Err(GridTextError::MissingRoot);
            },
        };
        let rows_count = cells.len() as u64;
        let columns_count = max_columns as u64;
        if rows_count < 1 || rows_count > MAX_CELLS as u64 || columns_count < 1 || columns_count > MAX_CELLS as u64 {
            return Err(GridTextError::BadSize);
        }
        assert(rows_count * columns_count <= MAX_CELLS as u64 * MAX_CELLS as u64) by (nonlinear_arith)
            requires
                rows_count <= MAX_CELLS as u64,
                columns_count <= MAX_CELLS as u64,
        ;
        if rows_count * columns_count > MAX_CELLS as u64 {
            return Err(GridTextError::BadSize);
        }
        proof {
            lemma_max_len_bounds(matrix_view(cells@));
            assert forall|k: int| 0 <= k < cells@.len() implies (#[trigger] cells@[k])@.len() <= max_columns by {
                assert(matrix_view(cells@)[k] == cells@[k]@);
            }
            assert forall|k: int| 0 <= k < fixed_cells@.len() implies (#[trigger] fixed_cells@[k])@.len() <= max_columns by {
                assert(matrix_view(fixed_cells@)[k].len() == matrix_view(cells@)[k].len());
            }
        }
        let padded_cells = pad_lines(&cells, max_columns);
        let padded_fixed = pad_lines(&fixed_cells, max_columns);
        Ok(Grid::new_from_cells(
            cells.len() as i32,
            max_columns as i32,
            IVec2 { x: root_column as i32, y: root_row as i32 },
            padded_cells,
            padded_fixed,
        ))
    }
}

/// The root lies on the grid, and its cell is active and locked, as the
/// `%` glyph says.
pub open spec fn root_writable(g: Grid) -> bool {
    &&& 0 <= g.root.y < g.num_rows
    &&& 0 <= g.root.x < g.num_columns
    &&& g.cells@[g.root.y as int]@[g.root.x as int]
    &&& g.fixed_cells@[g.root.y as int]@[g.root.x as int]
}

proof fn lemma_fold_push(st: TextState, t: Seq<char>, c: char)
    ensures
        text_fold(st, t.push(c)) == text_step(text_fold(st, t), c),
{
    assert(t.push(c).drop_last() =~= t);
}

proof fn lemma_row_text(g: Grid, st: TextState, r: int, c: int)
    requires
        g.wf(),
        root_writable(g),
        0 <= r < g.num_rows,
        0 <= c <= g.num_columns,
        st.wrong is None,
        !st.pending_cr,
        st.line_cells.len() == 0,
        st.line_fixed.len() == 0,
        st.cells.len() == r,
    ensures
        text_fold(st, row_text(g, r, c)) == (TextState {
            line_cells: g.cells_view()[r].take(c),
            line_fixed: g.fixed_view()[r].take(c),
            root: if g.root.y == r && g.root.x < c { Some((r, g.root.x as int)) } else { st.root },
            ..st
        }),
    decreases c,
{
    if c <= 0 {
        assert(g.cells_view()[r].take(c) =~= st.line_cells);
        assert(g.fixed_view()[r].take(c) =~= st.line_fixed);
    } else {
        lemma_row_text(g, st, r, c - 1);
        let is_root = g.root.y == r && g.root.x == c - 1;
        let prev = text_fold(st, row_text(g, r, c - 1));
        let ch = cell_glyph(is_root, g.cells@[r]@[c - 1], g.fixed_cells@[r]@[c - 1]);
        assert(prev.line_cells.len() == c - 1);
        assert(ch != '\n');
        assert(glyph_meaning(ch) == Some((is_root, g.cells@[r]@[c - 1], g.fixed_cells@[r]@[c - 1])));
        lemma_fold_push(st, row_text(g, r, c - 1), cell_glyph(is_root, g.cells@[r]@[c - 1], g.fixed_cells@[r]@[c - 1]));
        assert(g.cells_view()[r].take(c - 1).push(g.cells@[r]@[c - 1]) =~= g.cells_view()[r].take(c));
        assert(g.fixed_view()[r].take(c - 1).push(g.fixed_cells@[r]@[c - 1]) =~= g.fixed_view()[r].take(c));
    }
}

proof fn lemma_rows_text(g: Grid, r: int)
    requires
        g.wf(),
        root_writable(g),
        0 <= r <= g.num_rows,
    ensures
        text_fold(empty_text_state(), rows_text(g, r)) == (TextState {
            cells: g.cells_view().take(r),
            fixed: g.fixed_view().take(r),
            line_cells: seq![],
            line_fixed: seq![],
            root: if g.root.y < r { Some((g.root.y as int, g.root.x as int)) } else { None },
            wrong: None,
            pending_cr: false,
        }),
    decreases r,
{
    let columns = g.num_columns as int;
    if r <= 0 {
        assert(g.cells_view().take(r) =~= seq![]);
        assert(g.fixed_view().take(r) =~= seq![]);
    } else {
        lemma_rows_text(g, r - 1);
        let st = text_fold(empty_text_state(), rows_text(g, r - 1));
        lemma_row_text(g, st, r - 1, columns);
        lemma_fold_append(empty_text_state(), rows_text(g, r - 1), row_text(g, r - 1, columns));
        lemma_fold_push(empty_text_state(), rows_text(g, r - 1) + row_text(g, r - 1, columns), '\n');
        assert(g.cells_view()[r - 1].take(columns) =~= g.cells_view()[r - 1]);
        assert(g.fixed_view()[r - 1].take(columns) =~= g.fixed_view()[r - 1]);
        assert(g.cells_view().take(r - 1).push(g.cells_view()[r - 1]) =~= g.cells_view().take(r));
        assert(g.fixed_view().take(r - 1).push(g.fixed_view()[r - 1]) =~= g.fixed_view().take(r));
    }
}

proof fn lemma_max_len_uniform(lines: Seq<Seq<bool>>, columns: int)
    requires
        lines.len() >= 1,
        columns >= 0,
        forall|r: int| 0 <= r < lines.len() ==> (#[trigger] lines[r]).len() == columns,
    ensures
        max_len(lines) == columns,
    decreases lines.len(),
{
    if lines.len() > 1 {
        assert forall|r: int| 0 <= r < lines.drop_last().len() implies (#[trigger] lines.drop_last()[r]).len() == columns by {
            assert(lines.drop_last()[r] == lines[r]);
        }
        lemma_max_len_uniform(lines.drop_last(), columns);
    } else {
        assert(lines.drop_last().len() == 0);
        assert(max_len(lines.drop_last()) == 0);
    }
    assert(lines.last() == lines[lines.len() - 1]);
}

/// Writing a grid as text and reading the text back gives the same size,
/// root, cells and locks.
pub proof fn lemma_text_round_trip(g: Grid)
    requires
        g.wf(),
        root_writable(g),
    ensures
        parse_text(grid_text(g)) == Ok::<(int, int, IVec2, Seq<Seq<bool>>, Seq<Seq<bool>>), GridTextError>(
            (g.num_rows as int, g.num_columns as int, g.root, g.cells_view(), g.fixed_view()),
        ),
{
    let rows = g.num_rows as int;
    let columns = g.num_columns as int;
    lemma_rows_text(g, rows);
    assert(g.cells_view().take(rows) =~= g.cells_view());
    assert(g.fixed_view().take(rows) =~= g.fixed_view());
    lemma_max_len_uniform(g.cells_view(), columns);
    assert(padded(g.cells_view(), columns) =~~= g.cells_view());
    assert(padded(g.fixed_view(), columns) =~~= g.fixed_view());
}

/// The vertices and horizontal rails of vertex row `r`, over the columns `0..c`.
pub open spec fn crossing_line(g: Grid, r: int, c: int) -> Seq<char>
    decreases c,
{
    if c <= 0 {
        seq![]
    } else {
        crossing_line(g, r, c - 1).push(crossing_char(g.intersections.inner@[r]@[c - 1].crossing)).push(
            horiz_char(g.rails.horizontal@[r]@[c - 1]),
        )
    }
}

/// The vertical rails of cell row `r`, over the columns `0..c`, each followed by a space.
pub open spec fn vertical_line(g: Grid, r: int, c: int) -> Seq<char>
    decreases c,
{
    if c <= 0 {
        seq![]
    } else {
        vertical_line(g, r, c - 1).push(vert_char(g.rails.vertical@[r]@[c - 1])).push(' ')
    }
}

/// One full vertex line: the vertices and rails of vertex row `r`.
pub open spec fn crossing_text(g: Grid, r: int) -> Seq<char> {
    let columns = g.num_columns as int;
    crossing_line(g, r, columns).push(crossing_char(g.intersections.inner@[r]@[columns].crossing)).push('\n')
}

/// One full rail line: the vertical rails of cell row `r`.
pub open spec fn vertical_text(g: Grid, r: int) -> Seq<char> {
    let columns = g.num_columns as int;
    vertical_line(g, r, columns).push(vert_char(g.rails.vertical@[r]@[columns])).push('\n')
}

/// The picture of the rows `0..r`: a vertex line then a rail line each.
pub open spec fn picture_rows(g: Grid, r: int) -> Seq<char>
    decreases r,
{
    if r <= 0 {
        seq![]
    } else {
        picture_rows(g, r - 1) + crossing_text(g, r - 1) + vertical_text(g, r - 1)
    }
}

/// The picture of the grid's rails and crossings, with the last vertex line.
pub open spec fn rails_picture(g: Grid) -> Seq<char> {
    picture_rows(g, g.num_rows as int) + crossing_text(g, g.num_rows as int)
}

fn push_crossing_line(grid: &Grid, s: &mut String, row: usize)
    requires
        grid.wf(),
        row <= grid.num_rows,
    ensures
        final(s)@ == old(s)@ + crossing_text(*grid, row as int),
{
    let columns = grid.num_columns as usize;
    let ghost start = s@;
    let mut column: usize = 0;
    while column < columns
        invariant
            grid.wf(),
            row <= grid.num_rows,
            columns == grid.num_columns,
            column <= columns,
            s@ == start + crossing_line(*grid, row as int, column as int),
        decreases columns - column,
    {
        push_char(s, crossing_to_char(grid.intersections.inner[row][column]));
        push_char(s, horiz_to_char(grid.rails.horizontal[row][column]));
        column += 1;
        assert(s@ =~= start + crossing_line(*grid, row as int, column as int));
    }
    push_char(s, crossing_to_char(grid.intersections.inner[row][columns]));
    push_char(s, '\n');
    assert(s@ =~= start + crossing_text(*grid, row as int));
}

fn push_vertical_line(grid: &Grid, s: &mut String, row: usize)
    requires
        grid.wf(),
        row < grid.num_rows,
    ensures
        final(s)@ == old(s)@ + vertical_text(*grid, row as int),
{
    let columns = grid.num_columns as usize;
    let ghost start = s@;
    let mut column: usize = 0;
    while column < columns
        invariant
            grid.wf(),
            row < grid.num_rows,
            columns == grid.num_columns,
            column <= columns,
            s@ == start + vertical_line(*grid, row as int, column as int),
        decreases columns - column,
    {
        push_char(s, vert_to_char(grid.rails.vertical[row][column]));
        push_char(s, ' ');
        column += 1;
        assert(s@ =~= start + vertical_line(*grid, row as int, column as int));
    }
    push_char(s, vert_to_char(grid.rails.vertical[row][columns]));
    push_char(s, '\n');
    assert(s@ =~= start + vertical_text(*grid, row as int));
}

/// A picture of the grid's crossings and rails: for each row of vertices a
/// line of crossing glyphs with the horizontal rails between them, and below
/// it a line of the vertical rails.
pub fn rails_to_string(grid: &Grid) -> (r: String)
    requires
        grid.wf(),
    ensures
        r@ == rails_picture(*grid),
{
    let rows = grid.num_rows as usize;
    let mut s = String::new();
    let mut row: usize = 0;
    while row < rows
        invariant
            grid.wf(),
            rows == grid.num_rows,
            row <= rows,
            s@ == picture_rows(*grid, row as int),
        decreases rows - row,
    {
        push_crossing_line(grid, &mut s, row);
        push_vertical_line(grid, &mut s, row);
        row += 1;
    }
    push_crossing_line(grid, &mut s, rows);
    s
}

/// Row `r` of a crossing field as glyphs, over the columns `0..c`.
pub open spec fn crossing_row_text(m: Seq<Vec<crate::logic::intersection::Intersection>>, r: int, c: int) -> Seq<char>
    decreases c,
{
    if c <= 0 {
        seq![]
    } else {
        crossing_row_text(m, r, c - 1).push(crossing_char(m[r]@[c - 1].crossing))
    }
}

/// The rows `0..r` of a crossing field, one line each, `columns` glyphs wide.
pub open spec fn crossing_rows_text(m: Seq<Vec<crate::logic::intersection::Intersection>>, r: int, columns: int) -> Seq<char>
    decreases r,
{
    if r <= 0 {
        seq![]
    } else {
        (crossing_rows_text(m, r - 1, columns) + crossing_row_text(m, r - 1, columns)).push('\n')
    }
}

impl Intersections {
    /// The crossing glyphs, a line per row of vertices.
    pub fn to_string(&self) -> (r: String)
        requires
            self.inner@.len() >= 1,
            is_matrix(self.inner@, self.inner@.len() as int, self.inner@[0]@.len() as int),
        ensures
            r@ == crossing_rows_text(self.inner@, self.inner@.len() as int, self.inner@[0]@.len() as int),
    {
        let rows = self.inner.len();
        let columns = self.inner[0].len();
        let mut s = String::new();
        let mut row: usize = 0;
        while row < rows
            invariant
                rows == self.inner@.len(),
                columns == self.inner@[0]@.len(),
                is_matrix(self.inner@, rows as int, columns as int),
                row <= rows,
                s@ == crossing_rows_text(self.inner@, row as int, columns as int),
            decreases rows - row,
        {
            let mut column: usize = 0;
            while column < columns
                invariant
                    rows == self.inner@.len(),
                    columns == self.inner@[0]@.len(),
                    is_matrix(self.inner@, rows as int, columns as int),
                    row < rows,
                    column <= columns,
                    s@ == crossing_rows_text(self.inner@, row as int, columns as int) + crossing_row_text(self.inner@, row as int, column as int),
                decreases columns - column,
            {
                push_char(&mut s, crossing_to_char(self.inner[row][column]));
                column += 1;
                assert(s@ =~= crossing_rows_text(self.inner@, row as int, columns as int) + crossing_row_text(self.inner@, row as int, column as int));
            }
            push_char(&mut s, '\n');
            row += 1;
            assert(s@ =~= crossing_rows_text(self.inner@, row as int, columns as int));
        }
        s
    }
}

/// The grid's crossing glyphs, a line per row of vertices.
pub fn inter_to_string(grid: &Grid) -> (r: String)
    requires
        grid.wf(),
    ensures
        r@ == crossing_rows_text(grid.intersections.inner@, grid.num_rows + 1, grid.num_columns + 1),
{
    grid.intersections.to_string()
}

} // verus!
