use crate::logic::constraints::{Constraints, RailCoord};
use crate::logic::grid::{fits, Grid, IVec2, MAX_CELLS};
use crate::logic::rails::{is_matrix, matrix_view, Horizontal, Vertical};
use crate::logic::text::{pad_lines, padded, push_char, GridTextError};
use vstd::prelude::*;
use vstd::string::*;

verus! {

/// Texts longer than this are refused, which keeps every position in `i32`.
pub const MAX_LEVEL_TEXT: usize = 0x1000_0000;

/// What a character of a level text stands for.
#[derive(Debug, Copy, Clone, PartialEq, Eq, Structural)]
pub enum LevelGlyph {
    /// A cell: whether it is the root, active, locked, active in the solution.
    Cell { is_root: bool, cell: bool, fixed: bool, solution: bool },
    /// A clue on the vertical rail right of the previous cell.
    VerticalClue(Vertical),
    /// A clue on the horizontal rail below the cell above.
    HorizontalClue(Horizontal),
    /// Nothing: spacing between cells and clues.
    Blank,
    /// No glyph of the format.
    Wrong,
}

pub open spec fn level_glyph_spec(c: char) -> LevelGlyph {
    if c == '%' {
        LevelGlyph::Cell { is_root: true, cell: true, fixed: true, solution: true }
    } else if c == '@' {
        LevelGlyph::Cell { is_root: false, cell: true, fixed: true, solution: true }
    } else if c == '*' {
        LevelGlyph::Cell { is_root: false, cell: false, fixed: false, solution: true }
    } else if c == 'O' {
        LevelGlyph::Cell { is_root: false, cell: true, fixed: false, solution: true }
    } else if c == 'x' {
        LevelGlyph::Cell { is_root: false, cell: false, fixed: false, solution: false }
    } else if c == '?' {
        LevelGlyph::Cell { is_root: false, cell: true, fixed: false, solution: false }
    } else if c == '.' {
        LevelGlyph::Cell { is_root: false, cell: false, fixed: true, solution: false }
    } else if c == ' ' {
        LevelGlyph::Blank
    } else if c == 'v' {
        LevelGlyph::VerticalClue(Vertical::Bottom)
    } else if c == '=' {
        LevelGlyph::VerticalClue(Vertical::Center)
    } else if c == '^' {
        LevelGlyph::VerticalClue(Vertical::Top)
    } else if c == '>' {
        LevelGlyph::HorizontalClue(Horizontal::Right)
    } else if c == '"' {
        LevelGlyph::HorizontalClue(Horizontal::Center)
    } else if c == '<' {
        LevelGlyph::HorizontalClue(Horizontal::Left)
    } else {
        LevelGlyph::Wrong
    }
}

/// What a character of a level text stands for.
pub fn level_glyph(c: char) -> (r: LevelGlyph)
    ensures
        r == level_glyph_spec(c),
{
    if c == '%' {
        LevelGlyph::Cell { is_root: true, cell: true, fixed: true, solution: true }
    } else if c == '@' {
        LevelGlyph::Cell { is_root: false, cell: true, fixed: true, solution: true }
    } else if c == '*' {
        LevelGlyph::Cell { is_root: false, cell: false, fixed: false, solution: true }
    } else if c == 'O' {
        LevelGlyph::Cell { is_root: false, cell: true, fixed: false, solution: true }
    } else if c == 'x' {
        LevelGlyph::Cell { is_root: false, cell: false, fixed: false, solution: false }
    } else if c == '?' {
        LevelGlyph::Cell { is_root: false, cell: true, fixed: false, solution: false }
    } else if c == '.' {
        LevelGlyph::Cell { is_root: false, cell: false, fixed: true, solution: false }
    } else if c == ' ' {
        LevelGlyph::Blank
    } else if c == 'v' {
        LevelGlyph::VerticalClue(Vertical::Bottom)
    } else if c == '=' {
        LevelGlyph::VerticalClue(Vertical::Center)
    } else if c == '^' {
        LevelGlyph::VerticalClue(Vertical::Top)
    } else if c == '>' {
        LevelGlyph::HorizontalClue(Horizontal::Right)
    } else if c == '"' {
        LevelGlyph::HorizontalClue(Horizontal::Center)
    } else if c == '<' {
        LevelGlyph::HorizontalClue(Horizontal::Left)
    } else {
        LevelGlyph::Wrong
    }
}

/// The glyph of a cell that is not the root; `None` for a cell that is
/// locked but differs from the solution, which the format cannot hold.
pub open spec fn level_cell_glyph(cell: bool, fixed: bool, solution: bool) -> Option<char> {
    if cell && fixed && solution {
        Some('@')
    } else if cell && !fixed && solution {
        Some('O')
    } else if cell && !fixed && !solution {
        Some('?')
    } else if !cell && fixed && !solution {
        Some('.')
    } else if !cell && !fixed && !solution {
        Some('x')
    } else if !cell && !fixed && solution {
        Some('*')
    } else {
        None
    }
}

pub open spec fn vertical_clue_glyph(d: Vertical) -> char {
    match d {
        Vertical::Top => '^',
        Vertical::Center => '=',
        Vertical::Bottom => 'v',
    }
}

pub open spec fn horizontal_clue_glyph(d: Horizontal) -> char {
    match d {
        Horizontal::Left => '<',
        Horizontal::Center => '"',
        Horizontal::Right => '>',
    }
}

/// Each cell state that the format holds, and each clue direction, reads
/// back from its glyph as itself.
pub proof fn lemma_level_glyphs_round_trip(cell: bool, fixed: bool, solution: bool, v: Vertical, h: Horizontal)
    ensures
        level_glyph_spec('%') == (LevelGlyph::Cell { is_root: true, cell: true, fixed: true, solution: true }),
        level_cell_glyph(cell, fixed, solution) matches Some(g) ==> level_glyph_spec(g) == (LevelGlyph::Cell {
            is_root: false,
            cell,
            fixed,
            solution,
        }),
        level_glyph_spec(vertical_clue_glyph(v)) == LevelGlyph::VerticalClue(v),
        level_glyph_spec(horizontal_clue_glyph(h)) == LevelGlyph::HorizontalClue(h),
{
}

/// What reading a level text has gathered: cell rows of the odd lines, the
/// line being read, clues, the solution's cell count, root and errors.
pub struct LevelTextState {
    pub cells: Seq<Seq<bool>>,
    pub fixed: Seq<Seq<bool>>,
    pub solution: Seq<Seq<bool>>,
    pub line_cells: Seq<bool>,
    pub line_fixed: Seq<bool>,
    pub line_solution: Seq<bool>,
    pub lines: int,
    pub letters: int,
    pub max_columns: int,
    pub clues: Seq<RailCoord>,
    pub cell_count: int,
    pub root: Option<(int, int)>,
    pub wrong: Option<(int, int)>,
    /// A carriage return was read and waits for its newline.
    pub pending_cr: bool,
}

pub open spec fn empty_level_state() -> LevelTextState {
    LevelTextState {
        cells: seq![],
        fixed: seq![],
        solution: seq![],
        line_cells: seq![],
        line_fixed: seq![],
        line_solution: seq![],
        lines: 0,
        letters: 0,
        max_columns: 0,
        clues: seq![],
        cell_count: 0,
        root: None,
        wrong: None,
        pending_cr: false,
    }
}

/// Ending a line: its cells become a row when it is an odd line (1-based).
pub open spec fn end_level_line(st: LevelTextState) -> LevelTextState {
    let odd = (st.lines + 1) % 2 == 1;
    LevelTextState {
        cells: if odd { st.cells.push(st.line_cells) } else { st.cells },
        fixed: if odd { st.fixed.push(st.line_fixed) } else { st.fixed },
        solution: if odd { st.solution.push(st.line_solution) } else { st.solution },
        line_cells: seq![],
        line_fixed: seq![],
        line_solution: seq![],
        lines: st.lines + 1,
        letters: 0,
        max_columns: if st.line_cells.len() > st.max_columns { st.line_cells.len() as int } else { st.max_columns },
        pending_cr: false,
        ..st
    }
}

pub open spec fn level_step(st: LevelTextState, c: char) -> LevelTextState {
    let line = st.lines + 1;
    let letter = st.letters + 1;
    if st.wrong is Some {
        st
    } else if st.pending_cr && c != '\n' {
        LevelTextState { wrong: Some((line, letter)), ..st }
    } else if c == '\n' {
        end_level_line(st)
    } else if c == '\r' {
        LevelTextState { pending_cr: true, ..st }
    } else {
        match level_glyph_spec(c) {
            LevelGlyph::Cell { is_root, cell, fixed, solution } => LevelTextState {
                line_cells: st.line_cells.push(cell),
                line_fixed: st.line_fixed.push(fixed),
                line_solution: st.line_solution.push(solution),
                letters: letter,
                root: if is_root { Some(((line - 1) / 2, (letter - 1) / 2)) } else { st.root },
                cell_count: if solution { st.cell_count + 1 } else { st.cell_count },
                ..st
            },
            LevelGlyph::VerticalClue(d) => LevelTextState {
                clues: st.clues.push(RailCoord::Vertical { row: ((line - 1) / 2) as i32, column: ((letter + 1) / 2) as i32, direction: d }),
                letters: letter,
                ..st
            },
            LevelGlyph::HorizontalClue(d) => LevelTextState {
                clues: st.clues.push(RailCoord::Horizontal { row: ((line + 1) / 2) as i32, column: ((letter - 1) / 2) as i32, direction: d }),
                letters: letter,
                ..st
            },
            LevelGlyph::Blank => LevelTextState { letters: letter, ..st },
            LevelGlyph::Wrong => LevelTextState { wrong: Some((line, letter)), ..st },
        }
    }
}

pub open spec fn level_fold(st: LevelTextState, t: Seq<char>) -> LevelTextState
    decreases t.len(),
{
    if t.len() == 0 {
        st
    } else {
        level_step(level_fold(st, t.drop_last()), t.last())
    }
}

/// The state after the whole text: a last line without a newline counts when
/// it holds any character.
pub open spec fn level_read(t: Seq<char>) -> LevelTextState {
    let st = level_fold(empty_level_state(), t);
    if st.wrong is None && st.pending_cr {
        LevelTextState { wrong: Some((st.lines + 1, st.letters + 1)), ..st }
    } else if st.wrong is None && st.letters > 0 {
        end_level_line(st)
    } else {
        st
    }
}

/// The parts of a level that a text describes: rows, columns, root, initial
/// cells, locks, solution cells, clues and the solution's cell count.
pub struct LevelParts {
    pub rows: int,
    pub columns: int,
    pub root: IVec2,
    pub cells: Seq<Seq<bool>>,
    pub fixed: Seq<Seq<bool>>,
    pub solution: Seq<Seq<bool>>,
    pub clues: Seq<RailCoord>,
    pub cell_count: int,
}

pub open spec fn parse_level(t: Seq<char>) -> Result<LevelParts, GridTextError> {
    let st = level_read(t);
    let rows = st.cells.len() as int;
    let columns = st.max_columns;
    if t.len() >= MAX_LEVEL_TEXT {
        Err(GridTextError::BadSize)
    } else if st.wrong is Some {
        Err(GridTextError::WrongGlyph { line: st.wrong.unwrap().0 as usize, letter: st.wrong.unwrap().1 as usize })
    } else if st.root is None {
        Err(GridTextError::MissingRoot)
    } else if !(fits(rows, columns) && st.cell_count <= MAX_CELLS) {
        Err(GridTextError::BadSize)
    } else {
        Ok(
            LevelParts {
                rows,
                columns,
                root: IVec2 { x: st.root.unwrap().1 as i32, y: st.root.unwrap().0 as i32 },
                cells: padded(st.cells, columns),
                fixed: padded(st.fixed, columns),
                solution: padded(st.solution, columns),
                clues: st.clues,
                cell_count: st.cell_count,
            },
        )
    }
}

pub proof fn lemma_level_fold_append(st: LevelTextState, a: Seq<char>, b: Seq<char>)
    ensures
        level_fold(st, a + b) == level_fold(level_fold(st, a), b),
    decreases b.len(),
{
    if b.len() == 0 {
        assert(a + b =~= a);
    } else {
        lemma_level_fold_append(st, a, b.drop_last());
        assert((a + b).drop_last() =~= a + b.drop_last());
        assert((a + b).last() == b.last());
    }
}

pub proof fn lemma_level_wrong_sticks(st: LevelTextState, t: Seq<char>)
    requires
        st.wrong is Some,
    ensures
        level_fold(st, t) == st,
    decreases t.len(),
{
    if t.len() > 0 {
        lemma_level_wrong_sticks(st, t.drop_last());
    }
}

/// A puzzle: the grid the player starts from, its clues and its solution.
#[derive(Clone)]
pub struct Level {
    pub initial_grid: Grid,
    pub constraints: Constraints,
    pub solution: Grid,
}

impl Level {
    /// The level holds the described parts, with both grids recalculated.
    pub open spec fn holds_parts(&self, p: LevelParts) -> bool {
        &&& self.initial_grid.is_recalculated()
        &&& self.solution.is_recalculated()
        &&& self.initial_grid.num_rows == p.rows
        &&& self.initial_grid.num_columns == p.columns
        &&& self.initial_grid.root == p.root
        &&& self.initial_grid.cells_view() == p.cells
        &&& self.initial_grid.fixed_view() == p.fixed
        &&& self.solution.num_rows == p.rows
        &&& self.solution.num_columns == p.columns
        &&& self.solution.root == p.root
        &&& self.solution.cells_view() == p.solution
        &&& self.solution.fixed_view() == p.fixed
        &&& self.constraints.rails@ == p.clues
        &&& self.constraints.cell_count == p.cell_count
        &&& self.constraints.wf()
    }
}

/// Moves the line being read into the rows when the line is odd.
fn end_line(
    cells: &mut Vec<Vec<bool>>,
    fixed: &mut Vec<Vec<bool>>,
    solution: &mut Vec<Vec<bool>>,
    line_cells: Vec<bool>,
    line_fixed: Vec<bool>,
    line_solution: Vec<bool>,
    lines: usize,
)
    requires
        lines < MAX_LEVEL_TEXT,
    ensures
        matrix_view(final(cells)@) == (if (lines + 1) % 2 == 1 { matrix_view(old(cells)@).push(line_cells@) } else { matrix_view(old(cells)@) }),
        matrix_view(final(fixed)@) == (if (lines + 1) % 2 == 1 { matrix_view(old(fixed)@).push(line_fixed@) } else { matrix_view(old(fixed)@) }),
        matrix_view(final(solution)@) == (if (lines + 1) % 2 == 1 { matrix_view(old(solution)@).push(line_solution@) } else { matrix_view(old(solution)@) }),
        final(cells)@ == (if (lines + 1) % 2 == 1 { old(cells)@.push(line_cells) } else { old(cells)@ }),
        final(fixed)@ == (if (lines + 1) % 2 == 1 { old(fixed)@.push(line_fixed) } else { old(fixed)@ }),
        final(solution)@ == (if (lines + 1) % 2 == 1 { old(solution)@.push(line_solution) } else { old(solution)@ }),
{
    if (lines + 1) % 2 == 1 {
        let ghost c0 = cells@;
        let ghost f0 = fixed@;
        let ghost s0 = solution@;
        cells.push(line_cells);
        fixed.push(line_fixed);
        solution.push(line_solution);
        assert(matrix_view(cells@) =~= matrix_view(c0).push(line_cells@));
        assert(matrix_view(fixed@) =~= matrix_view(f0).push(line_fixed@));
        assert(matrix_view(solution@) =~= matrix_view(s0).push(line_solution@));
    }
}

impl Level {
    /// Reads a level: odd lines hold cells (and vertical clues between them),
    /// even lines hold horizontal clues; both grids are recalculated.
    #[verifier::rlimit(80)]
    pub fn from_str(s: &str) -> (r: Result<Level, GridTextError>)
        ensures
            match parse_level(s@) {
                Ok(p) => r matches Ok(level) && level.holds_parts(p),
                Err(e) => r == Err::<Level, GridTextError>(e),
            },
    {
        let n = s.unicode_len();
        if n >= MAX_LEVEL_TEXT {
            return Err(GridTextError::BadSize);
        }
        let mut cells: Vec<Vec<bool>> = Vec::new();
        let mut fixed: Vec<Vec<bool>> = Vec::new();
        let mut solution: Vec<Vec<bool>> = Vec::new();
        let mut line_cells: Vec<bool> = Vec::new();
        let mut line_fixed: Vec<bool> = Vec::new();
        let mut line_solution: Vec<bool> = Vec::new();
        let mut lines: usize = 0;
        let mut letters: usize = 0;
        let mut max_columns: usize = 0;
        let mut clues: Vec<RailCoord> = Vec::new();
        let mut cell_count: usize = 0;
        let mut root: Option<(usize, usize)> = None;
        let mut pending_cr = false;
        let mut i: usize = 0;
        assert(s@.take(0) =~= Seq::<char>::empty());
        assert(matrix_view(cells@) =~= Seq::<Seq<bool>>::empty());
        assert(matrix_view(fixed@) =~= Seq::<Seq<bool>>::empty());
        assert(matrix_view(solution@) =~= Seq::<Seq<bool>>::empty());
        while i < n
            invariant
                n == s@.len(),
                n < MAX_LEVEL_TEXT,
                i <= n,
                lines <= i,
                letters <= i,
                lines + letters + (if pending_cr { 1int } else { 0 }) <= i,
                cells@.len() <= lines,
                max_columns <= i,
                cell_count <= i,
                clues@.len() <= i,
                line_cells@.len() <= letters,
                line_fixed@.len() == line_cells@.len(),
                line_solution@.len() == line_cells@.len(),
                fixed@.len() == cells@.len(),
                solution@.len() == cells@.len(),
                forall|k: int| 0 <= k < cells@.len() ==> (#[trigger] cells@[k])@.len() <= max_columns
                    && fixed@[k]@.len() == cells@[k]@.len() && solution@[k]@.len() == cells@[k]@.len(),
                level_fold(empty_level_state(), s@.take(i as int)) == (LevelTextState {
                    cells: matrix_view(cells@),
                    fixed: matrix_view(fixed@),
                    solution: matrix_view(solution@),
                    line_cells: line_cells@,
                    line_fixed: line_fixed@,
                    line_solution: line_solution@,
                    lines: lines as int,
                    letters: letters as int,
                    max_columns: max_columns as int,
                    clues: clues@,
                    cell_count: cell_count as int,
                    root: match root {
                        Some((a, b)) => Some((a as int, b as int)),
                        None => None,
                    },
                    wrong: None,
                    pending_cr: pending_cr,
                }),
            decreases n - i,
        {
            let c = s.get_char(i);
            proof {
                assert(s@.take(i + 1).drop_last() =~= s@.take(i as int));
                assert(s@.take(i + 1).last() == c);
            }
            let line = lines + 1;
            let letter = letters + 1;
            if pending_cr && c != '\n' {
                proof {
                    let st = level_fold(empty_level_state(), s@.take(i + 1));
                    lemma_level_fold_append(empty_level_state(), s@.take(i + 1), s@.skip(i + 1));
                    assert(s@.take(i + 1) + s@.skip(i + 1) =~= s@);
                    lemma_level_wrong_sticks(st, s@.skip(i + 1));
                }
                return Err(GridTextError::WrongGlyph { line, letter });
            }
            if c == '\r' {
                pending_cr = true;
            } else if c == '\n' {
                pending_cr = false;
                if line_cells.len() > max_columns {
                    max_columns = line_cells.len();
                }
                end_line(&mut cells, &mut fixed, &mut solution, line_cells, line_fixed, line_solution, lines);
                line_cells = Vec::new();
                line_fixed = Vec::new();
                line_solution = Vec::new();
                lines = line;
                letters = 0;
            } else {
                match level_glyph(c) {
                    LevelGlyph::Cell { is_root, cell, fixed: fixed_cell, solution: solution_cell } => {
                        if is_root {
                            root = Some(((line - 1) / 2, (letter - 1) / 2));
                        }
                        if solution_cell {
                            cell_count += 1;
                        }
                        line_cells.push(cell);
                        line_fixed.push(fixed_cell);
                        line_solution.push(solution_cell);
                        letters = letter;
                    },
                    LevelGlyph::VerticalClue(direction) => {
                        clues.push(RailCoord::Vertical { row: ((line - 1) / 2) as i32, column: ((letter + 1) / 2) as i32, direction });
                        letters = letter;
                    },
                    LevelGlyph::HorizontalClue(direction) => {
                        clues.push(RailCoord::Horizontal { row: ((line + 1) / 2) as i32, column: ((letter - 1) / 2) as i32, direction });
                        letters = letter;
                    },
                    LevelGlyph::Blank => {
                        letters = letter;
                    },
                    LevelGlyph::Wrong => {
                        proof {
                            let st = level_fold(empty_level_state(), s@.take(i + 1));
                            lemma_level_fold_append(empty_level_state(), s@.take(i + 1), s@.skip(i + 1));
                            assert(s@.take(i + 1) + s@.skip(i + 1) =~= s@);
                            lemma_level_wrong_sticks(st, s@.skip(i + 1));
                        }
                        return Err(GridTextError::WrongGlyph { line, letter });
                    },
                }
            }
            i += 1;
        }
        assert(s@.take(n as int) =~= s@);
        if pending_cr {
            return Err(GridTextError::WrongGlyph { line: lines + 1, letter: letters + 1 });
        }
        if letters > 0 {
            if line_cells.len() > max_columns {
                max_columns = line_cells.len();
            }
            end_line(&mut cells, &mut fixed, &mut solution, line_cells, line_fixed, line_solution, lines);
        }
        let (root_row, root_column) = match root {
            Some(position) => position,
            None => {
                return Err(GridTextError::MissingRoot);
            },
        };
        let rows_count = cells.len() as u64;
        let columns_count = max_columns as u64;
        if rows_count < 1 || rows_count > MAX_CELLS as u64 || columns_count < 1 || columns_count > MAX_CELLS as u64 {
            return Err(GridTextError::BadSize);
        }
        assert(rows_count * columns_count <= MAX_CELLS as u64 * MAX_CELLS as u64) by (nonlinear_arith)
            requires
                rows_count <= MAX_CELLS as u64,
                columns_count <= MAX_CELLS as u64,
        ;
        if rows_count * columns_count > MAX_CELLS as u64 || cell_count > MAX_CELLS as usize {
            return Err(GridTextError::BadSize);
        }
        let rows = cells.len() as i32;
        let columns = max_columns as i32;
        let root = IVec2 { x: root_column as i32, y: root_row as i32 };
        assert forall|k: int| 0 <= k < solution@.len() implies (#[trigger] solution@[k])@.len() <= max_columns by {
            assert(cells@[k]@.len() <= max_columns);
        }
        assert forall|k: int| 0 <= k < fixed@.len() implies (#[trigger] fixed@[k])@.len() <= max_columns by {
            assert(cells@[k]@.len() <= max_columns);
        }
        let cells = pad_lines(&cells, max_columns);
        let solution = pad_lines(&solution, max_columns);
        let initial_fixed = pad_lines(&fixed, max_columns);
        let fixed = pad_lines(&fixed, max_columns);
        let mut initial_grid = Grid::new_from_cells(rows, columns, root, cells, initial_fixed);
        let _ = initial_grid.recalculate_rails();
        let mut solution = Grid::new_from_cells(rows, columns, root, solution, fixed);
        let _ = solution.recalculate_rails();
        let constraints = Constraints { rails: clues, cell_count: cell_count as i32 };
        Ok(Level { initial_grid, constraints, solution })
    }
}

/// Where a clue's glyph goes in the text: horizontal clues between two cell
/// lines, vertical clues between two cells of a line.
pub open spec fn clue_place(clue: RailCoord) -> (int, int) {
    match clue {
        RailCoord::Horizontal { row, column, .. } => (2 * row - 1, 2 * column),
        RailCoord::Vertical { row, column, .. } => (2 * row, 2 * column - 1),
    }
}

pub open spec fn clue_glyph(clue: RailCoord) -> char {
    match clue {
        RailCoord::Horizontal { direction, .. } => horizontal_clue_glyph(direction),
        RailCoord::Vertical { direction, .. } => vertical_clue_glyph(direction),
    }
}

/// The glyph of the last of the first `n` clues placed at `(r, c)`.
pub open spec fn clue_char(clues: Seq<RailCoord>, n: int, r: int, c: int) -> Option<char>
    decreases n,
{
    if n <= 0 {
        None
    } else if clue_place(clues[n - 1]) == (r, c) {
        Some(clue_glyph(clues[n - 1]))
    } else {
        clue_char(clues, n - 1, r, c)
    }
}

impl Level {
    /// Both grids have the same size, the clues lie inside it, and every cell
    /// other than the root has a glyph.
    pub open spec fn is_writable(&self) -> bool {
        let rows = self.initial_grid.num_rows as int;
        let columns = self.initial_grid.num_columns as int;
        &&& self.initial_grid.wf()
        &&& self.solution.wf()
        &&& self.solution.num_rows == rows
        &&& self.solution.num_columns == columns
        &&& forall|i: int, j: int| 0 <= i < rows && 0 <= j < columns && !(self.initial_grid.root.y == i && self.initial_grid.root.x == j)
            ==> (#[trigger] level_cell_glyph(self.initial_grid.cells@[i]@[j], self.solution.fixed_cells@[i]@[j], self.solution.cells@[i]@[j])) is Some
        &&& forall|k: int| 0 <= k < self.constraints.rails@.len() ==> 0 <= (#[trigger] clue_place(self.constraints.rails@[k])).0 < 2 * rows - 1
            && 0 <= clue_place(self.constraints.rails@[k]).1 < 2 * columns - 1
    }

    /// The glyph of the cell at text position `(r, c)` (both even), or a space.
    pub open spec fn base_char(&self, r: int, c: int) -> char {
        if r % 2 == 0 && c % 2 == 0 {
            if self.initial_grid.root.y == r / 2 && self.initial_grid.root.x == c / 2 {
                '%'
            } else {
                level_cell_glyph(
                    self.initial_grid.cells@[r / 2]@[c / 2],
                    self.solution.fixed_cells@[r / 2]@[c / 2],
                    self.solution.cells@[r / 2]@[c / 2],
                ).unwrap()
            }
        } else {
            ' '
        }
    }

    /// The character at text position `(r, c)`: a clue's glyph when one is
    /// placed there, else the cell's glyph or a space.
    pub open spec fn level_char(&self, r: int, c: int) -> char {
        match clue_char(self.constraints.rails@, self.constraints.rails@.len() as int, r, c) {
            Some(g) => g,
            None => self.base_char(r, c),
        }
    }

    /// Text line `r` over the positions `0..c`.
    pub open spec fn level_line(&self, r: int, c: int) -> Seq<char>
        decreases c,
    {
        if c <= 0 {
            seq![]
        } else {
            self.level_line(r, c - 1).push(self.level_char(r, c - 1))
        }
    }

    /// The text lines `0..r`, each ended by a newline.
    pub open spec fn level_lines(&self, r: int) -> Seq<char>
        decreases r,
    {
        if r <= 0 {
            seq![]
        } else {
            (self.level_lines(r - 1) + self.level_line(r - 1, 2 * self.initial_grid.num_columns - 1)).push('\n')
        }
    }

    /// The level as text.
    pub open spec fn level_text(&self) -> Seq<char> {
        self.level_lines(2 * self.initial_grid.num_rows - 1)
    }

    /// The level as text: cells on the even positions of the odd lines, clues
    /// between them, spaces elsewhere.
    #[verifier::rlimit(60)]
    pub fn to_string(&self) -> (r: String)
        requires
            self.is_writable(),
        ensures
            r@ == self.level_text(),
    {
        let width = self.initial_grid.num_columns as usize * 2 - 1;
        let height = self.initial_grid.num_rows as usize * 2 - 1;
        let ghost clues = self.constraints.rails@;
        let mut lines: Vec<Vec<char>> = Vec::new();
        let mut r: usize = 0;
        while r < height
            invariant
                self.is_writable(),
                height == 2 * self.initial_grid.num_rows - 1,
                width == 2 * self.initial_grid.num_columns - 1,
                r <= height,
                lines@.len() == r,
                forall|k: int| 0 <= k < r ==> (#[trigger] lines@[k])@ == Seq::new(width as nat, |c: int| self.base_char(k, c)),
            decreases height - r,
        {
            let mut line: Vec<char> = Vec::new();
            let mut c: usize = 0;
            while c < width
                invariant
                    self.is_writable(),
                    height == 2 * self.initial_grid.num_rows - 1,
                    width == 2 * self.initial_grid.num_columns - 1,
                    r < height,
                    c <= width,
                    line@ == Seq::new(c as nat, |j: int| self.base_char(r as int, j)),
                decreases width - c,
            {
                let mut letter = ' ';
                if r % 2 == 0 && c % 2 == 0 {
                    let row = r / 2;
                    let column = c / 2;
                    if self.initial_grid.root.y >= 0 && self.initial_grid.root.x >= 0
                        && self.initial_grid.root.y as usize == row && self.initial_grid.root.x as usize == column {
                        letter = '%';
                    } else {
                        let cell = self.initial_grid.cells[row][column];
                        let fixed = self.solution.fixed_cells[row][column];
                        let solution = self.solution.cells[row][column];
                        assert(level_cell_glyph(cell, fixed, solution) is Some);
                        letter = if cell && fixed && solution {
                            '@'
                        } else if cell && !fixed && solution {
                            'O'
                        } else if cell && !fixed && !solution {
                            '?'
                        } else if !cell && fixed && !solution {
                            '.'
                        } else if !cell && !fixed && !solution {
                            'x'
                        } else {
                            '*'
                        };
                    }
                }
                line.push(letter);
                c += 1;
                assert(line@ =~= Seq::new(c as nat, |j: int| self.base_char(r as int, j)));
            }
            lines.push(line);
            r += 1;
        }
        let mut k: usize = 0;
        assert(matrix_view(lines@) =~~= Seq::new(height as nat, |i: int| Seq::new(width as nat, |j: int|
            match clue_char(clues, 0, i, j) {
                Some(g) => g,
                None => self.base_char(i, j),
            })));
        while k < self.constraints.rails.len()
            invariant
                self.is_writable(),
                clues == self.constraints.rails@,
                height == 2 * self.initial_grid.num_rows - 1,
                width == 2 * self.initial_grid.num_columns - 1,
                k <= clues.len(),
                is_matrix(lines@, height as int, width as int),
                matrix_view(lines@) == Seq::new(height as nat, |i: int| Seq::new(width as nat, |j: int|
                    match clue_char(clues, k as int, i, j) {
                        Some(g) => g,
                        None => self.base_char(i, j),
                    })),
            decreases clues.len() - k,
        {
            let clue = self.constraints.rails[k];
            assert(0 <= clue_place(clues[k as int]).0 < 2 * self.initial_grid.num_rows - 1
                && 0 <= clue_place(clues[k as int]).1 < 2 * self.initial_grid.num_columns - 1);
            let (pr, pc, glyph) = match clue {
                RailCoord::Horizontal { row, column, direction } => (
                    (2 * row as i64 - 1) as usize,
                    (2 * column as i64) as usize,
                    match direction {
                        Horizontal::Left => '<',
                        Horizontal::Center => '"',
                        Horizontal::Right => '>',
                    },
                ),
                RailCoord::Vertical { row, column, direction } => (
                    (2 * row as i64) as usize,
                    (2 * column as i64 - 1) as usize,
                    match direction {
                        Vertical::Top => '^',
                        Vertical::Center => '=',
                        Vertical::Bottom => 'v',
                    },
                ),
            };
            assert(clue_place(clues[k as int]) == (pr as int, pc as int));
            crate::logic::trace::set_entry(&mut lines, pr, pc, glyph);
            k += 1;
            assert(matrix_view(lines@) =~~= Seq::new(height as nat, |i: int| Seq::new(width as nat, |j: int|
                match clue_char(clues, k as int, i, j) {
                    Some(g) => g,
                    None => self.base_char(i, j),
                })));
        }
        assert forall|i: int, j: int| 0 <= i < height && 0 <= j < width implies #[trigger] lines@[i]@[j] == self.level_char(i, j) by {
            assert(matrix_view(lines@)[i][j] == lines@[i]@[j]);
        }
        let mut s = String::new();
        let mut r: usize = 0;
        while r < height
            invariant
                self.is_writable(),
                clues == self.constraints.rails@,
                height == 2 * self.initial_grid.num_rows - 1,
                width == 2 * self.initial_grid.num_columns - 1,
                r <= height,
                is_matrix(lines@, height as int, width as int),
                forall|i: int, j: int| 0 <= i < height && 0 <= j < width ==> #[trigger] lines@[i]@[j] == self.level_char(i, j),
                s@ == self.level_lines(r as int),
            decreases height - r,
        {
            let mut c: usize = 0;
            while c < width
                invariant
                    self.is_writable(),
                    height == 2 * self.initial_grid.num_rows - 1,
                    width == 2 * self.initial_grid.num_columns - 1,
                    r < height,
                    c <= width,
                    is_matrix(lines@, height as int, width as int),
                    forall|i: int, j: int| 0 <= i < height && 0 <= j < width ==> #[trigger] lines@[i]@[j] == self.level_char(i, j),
                    s@ == self.level_lines(r as int) + self.level_line(r as int, c as int),
                decreases width - c,
            {
                push_char(&mut s, lines[r][c]);
                c += 1;
                assert(s@ =~= self.level_lines(r as int) + self.level_line(r as int, c as int));
            }
            push_char(&mut s, '\n');
            r += 1;
            assert(s@ =~= self.level_lines(r as int));
        }
        s
    }
}

/// The first level of the campaign.
pub const FIRST_LEVEL: &'static str = ". . . . . .\n           \n. x x x x .\n           \n. x . x x .\n  \" > >    \n.=?^%=*vx .\n  \" < <    \n. x x x x .\n           \n. . . . . .\n";

/// The level is the one that the text describes.
pub open spec fn read_from(level: Level, text: Seq<char>) -> bool {
    match parse_level(text) {
        Ok(p) => level.holds_parts(p),
        Err(_) => false,
    }
}

/// The texts of the levels, section by section.
pub struct RawLevels<'a> {
    pub sections: Vec<RawSection<'a>>,
}

pub struct RawSection<'a> {
    pub levels: Vec<&'a str>,
}

/// The campaign's level texts: one section holding the first level.
pub fn raw_levels() -> (r: RawLevels<'static>)
    ensures
        r.sections@.len() == 1,
        r.sections@[0].levels@ == seq![FIRST_LEVEL],
{
    let mut levels: Vec<&'static str> = Vec::new();
    levels.push(FIRST_LEVEL);
    let mut sections: Vec<RawSection<'static>> = Vec::new();
    sections.push(RawSection { levels });
    assert(sections@[0].levels@ =~= seq![FIRST_LEVEL]);
    RawLevels { sections }
}

pub struct Section {
    pub levels: Vec<Level>,
}

/// The campaign's levels, section by section.
pub struct Levels {
    pub sections: Vec<Section>,
}

impl Levels {
    /// The levels read from their texts, or the first error of a text.
    pub fn from_raw(raw: &RawLevels) -> (r: Result<Levels, GridTextError>)
        ensures
            r matches Ok(l) ==> l.sections@.len() == raw.sections@.len() && forall|i: int, j: int|
                0 <= i < raw.sections@.len() && 0 <= j < raw.sections@[i].levels@.len()
                    ==> l.sections@[i].levels@.len() == raw.sections@[i].levels@.len()
                    && read_from(#[trigger] l.sections@[i].levels@[j], raw.sections@[i].levels@[j]@),
            r matches Err(e) ==> exists|i: int, j: int| 0 <= i < raw.sections@.len() && 0 <= j < raw.sections@[i].levels@.len()
                && #[trigger] parse_level(raw.sections@[i].levels@[j]@) == Err::<LevelParts, GridTextError>(e),
    {
        let mut sections: Vec<Section> = Vec::new();
        let mut i: usize = 0;
        while i < raw.sections.len()
            invariant
                i <= raw.sections@.len(),
                sections@.len() == i,
                forall|a: int| 0 <= a < i ==> (#[trigger] sections@[a]).levels@.len() == raw.sections@[a].levels@.len(),
                forall|a: int, b: int| 0 <= a < i && 0 <= b < raw.sections@[a].levels@.len()
                    ==> read_from(#[trigger] sections@[a].levels@[b], raw.sections@[a].levels@[b]@),
            decreases raw.sections@.len() - i,
        {
            let mut levels: Vec<Level> = Vec::new();
            let mut j: usize = 0;
            while j < raw.sections[i].levels.len()
                invariant
                    i < raw.sections@.len(),
                    sections@.len() == i,
                    forall|a: int| 0 <= a < i ==> (#[trigger] sections@[a]).levels@.len() == raw.sections@[a].levels@.len(),
                    forall|a: int, b: int| 0 <= a < i && 0 <= b < raw.sections@[a].levels@.len()
                        ==> read_from(#[trigger] sections@[a].levels@[b], raw.sections@[a].levels@[b]@),
                    j <= raw.sections@[i as int].levels@.len(),
                    levels@.len() == j,
                    forall|k: int| 0 <= k < j ==> read_from(#[trigger] levels@[k], raw.sections@[i as int].levels@[k]@),
                decreases raw.sections@[i as int].levels@.len() - j,
            {
                let text: &str = raw.sections[i].levels[j];
                match Level::from_str(text) {
                    Ok(level) => {
                        assert(read_from(level, text@));
                        levels.push(level);
                        assert(levels@[j as int] == level);
                    },
                    Err(e) => {
                        return Err(e);
                    },
                }
                j += 1;
            }
            let ghost done = levels@;
            sections.push(Section { levels });
            assert(sections@[i as int].levels@ == done);
            i += 1;
        }
        Ok(Levels { sections })
    }

    /// The campaign's levels.
    pub fn get() -> (r: Result<Levels, GridTextError>)
        ensures
            r matches Ok(l) ==> l.sections@.len() == 1 && l.sections@[0].levels@.len() == 1
                && read_from(l.sections@[0].levels@[0], FIRST_LEVEL@),
            r matches Err(e) ==> parse_level(FIRST_LEVEL@) == Err::<LevelParts, GridTextError>(e),
    {
        let raw = raw_levels();
        let r = Levels::from_raw(&raw);
        proof {
            if r is Ok {
                let l = r->Ok_0;
                assert(read_from(l.sections@[0].levels@[0], raw.sections@[0].levels@[0]@));
            }
        }
        r
    }
}

} // verus!
