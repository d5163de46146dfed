use crate::logic::grid::{derived_crossings, derived_horizontal, derived_vertical, filled, rail_sum, Grid};
use crate::logic::intersection::{Crossing, Intersection};
use crate::logic::rails::{horizontal_opposite, matrix_view, vertical_opposite, Horizontal, Vertical};
use vstd::prelude::*;

verus! {

/// Most rail segments that one trace may walk.
pub const MAX_TRACE_STEPS: u32 = 10000;

const MAX_COORD: i64 = 100000001;

/// Why a trace could not close its loop. Each of these means that the cells
/// do not form a boundary that the tracer can follow from the root.
#[derive(Debug, Copy, Clone, PartialEq, Eq, Structural)]
pub enum TraceFault {
    /// The rail the tracer stands on has no direction.
    CenterRail,
    /// The next vertex touches no active cell.
    EmptyCrossing,
    /// No rail leaves an ordinary vertex in the direction of travel.
    NoExit,
    /// The walk left the matrices of rails or vertices.
    OffGrid,
    /// The walk did not come back to the root within the step limit.
    TooLong,
}

/// Everything a trace reads and writes: the rails (flipped in place while
/// walking backwards), the reachable flags, the crossings (diagonal ones get
/// resolved), the rail the tracer stands on and its orientation.
pub struct TraceState {
    pub horiz: Seq<Seq<Horizontal>>,
    pub vert: Seq<Seq<Vertical>>,
    pub reach_h: Seq<Seq<bool>>,
    pub reach_v: Seq<Seq<bool>>,
    pub crossings: Seq<Seq<Intersection>>,
    pub row: int,
    pub column: int,
    pub horizontal: bool,
    pub backwards: bool,
}

pub open spec fn in_bounds<T>(m: Seq<Seq<T>>, r: int, c: int) -> bool {
    0 <= r < m.len() && 0 <= c < m[r].len()
}

pub open spec fn set2<T>(m: Seq<Seq<T>>, r: int, c: int, v: T) -> Seq<Seq<T>> {
    m.update(r, m[r].update(c, v))
}

pub open spec fn flip_h(h: Horizontal, backwards: bool) -> Horizontal {
    if backwards {
        horizontal_opposite(h)
    } else {
        h
    }
}

pub open spec fn flip_v(v: Vertical, backwards: bool) -> Vertical {
    if backwards {
        vertical_opposite(v)
    } else {
        v
    }
}

/// One segment along a horizontal rail, then the choice of the next rail at
/// the vertex reached.
pub open spec fn horizontal_step(s: TraceState) -> Result<TraceState, TraceFault> {
    let b = s.backwards;
    if !in_bounds(s.horiz, s.row, s.column) || !in_bounds(s.reach_h, s.row, s.column) {
        Err(TraceFault::OffGrid)
    } else {
        let h = flip_h(s.horiz[s.row][s.column], b);
        let horiz = if b { set2(s.horiz, s.row, s.column, h) } else { s.horiz };
        let walked = TraceState { horiz, reach_h: set2(s.reach_h, s.row, s.column, true), ..s };
        let nr = s.row;
        let nc = if h == Horizontal::Right { s.column + 1 } else { s.column };
        if h == Horizontal::Center {
            Err(TraceFault::CenterRail)
        } else if !in_bounds(s.crossings, nr, nc) {
            Err(TraceFault::OffGrid)
        } else {
            let behind = if h == Horizontal::Left { nc - 1 } else { nc };
            match s.crossings[nr][nc].crossing {
                Crossing::Empty => Err(TraceFault::EmptyCrossing),
                Crossing::Single => {
                    if !(1 <= nr && 1 <= nc && in_bounds(s.vert, nr - 1, nc) && in_bounds(s.vert, nr, nc)
                        && in_bounds(horiz, nr, nc - 1) && in_bounds(horiz, nr, nc)) {
                        Err(TraceFault::OffGrid)
                    } else {
                        let above = flip_v(s.vert[nr - 1][nc], b);
                        let below = flip_v(s.vert[nr][nc], b);
                        let left = flip_h(horiz[nr][nc - 1], b);
                        let right = flip_h(horiz[nr][nc], b);
                        if below == Vertical::Bottom {
                            Ok(TraceState { row: nr, column: nc, horizontal: false, ..walked })
                        } else if above == Vertical::Top {
                            Ok(TraceState { row: nr - 1, column: nc, horizontal: false, ..walked })
                        } else if left == h && left == Horizontal::Left {
                            Ok(TraceState { row: nr, column: nc - 1, ..walked })
                        } else if right == h && right == Horizontal::Right {
                            Ok(TraceState { row: nr, column: nc, ..walked })
                        } else {
                            Err(TraceFault::NoExit)
                        }
                    }
                },
                Crossing::TopLeftToBottomRight | Crossing::TopRightToBottomLeft => Ok(
                    TraceState {
                        crossings: set2(s.crossings, nr, nc, Intersection { crossing: Crossing::HorizontalOnTop }),
                        row: nr,
                        column: behind,
                        backwards: !b,
                        ..walked
                    },
                ),
                Crossing::VerticalOnTop => Ok(TraceState { row: nr, column: behind, backwards: !b, ..walked }),
                Crossing::HorizontalOnTop => Ok(TraceState { row: nr, column: nc, backwards: !b, ..walked }),
            }
        }
    }
}

/// One segment along a vertical rail, then the choice of the next rail at
/// the vertex reached.
pub open spec fn vertical_step(s: TraceState) -> Result<TraceState, TraceFault> {
    let b = s.backwards;
    if !in_bounds(s.vert, s.row, s.column) || !in_bounds(s.reach_v, s.row, s.column) {
        Err(TraceFault::OffGrid)
    } else {
        let v = flip_v(s.vert[s.row][s.column], b);
        let vert = if b { set2(s.vert, s.row, s.column, v) } else { s.vert };
        let walked = TraceState { vert, reach_v: set2(s.reach_v, s.row, s.column, true), ..s };
        let nr = if v == Vertical::Bottom { s.row + 1 } else { s.row };
        let nc = s.column;
        if v == Vertical::Center {
            Err(TraceFault::CenterRail)
        } else if !in_bounds(s.crossings, nr, nc) {
            Err(TraceFault::OffGrid)
        } else {
            let behind = if v == Vertical::Bottom { nr } else { nr - 1 };
            match s.crossings[nr][nc].crossing {
                Crossing::Empty => Err(TraceFault::EmptyCrossing),
                Crossing::Single => {
                    if !(1 <= nr && 1 <= nc && in_bounds(vert, nr - 1, nc) && in_bounds(vert, nr, nc)
                        && in_bounds(s.horiz, nr, nc - 1) && in_bounds(s.horiz, nr, nc)) {
                        Err(TraceFault::OffGrid)
                    } else {
                        let above = flip_v(vert[nr - 1][nc], b);
                        let below = flip_v(vert[nr][nc], b);
                        let left = flip_h(s.horiz[nr][nc - 1], b);
                        let right = flip_h(s.horiz[nr][nc], b);
                        if right == Horizontal::Right {
                            Ok(TraceState { row: nr, column: nc, horizontal: true, ..walked })
                        } else if left == Horizontal::Left {
                            Ok(TraceState { row: nr, column: nc - 1, horizontal: true, ..walked })
                        } else if above == v && above == Vertical::Top {
                            Ok(TraceState { row: nr - 1, column: nc, ..walked })
                        } else if below == v && below == Vertical::Bottom {
                            Ok(TraceState { row: nr, column: nc, ..walked })
                        } else {
                            Err(TraceFault::NoExit)
                        }
                    }
                },
                Crossing::TopLeftToBottomRight | Crossing::TopRightToBottomLeft => Ok(
                    TraceState {
                        crossings: set2(s.crossings, nr, nc, Intersection { crossing: Crossing::VerticalOnTop }),
                        row: behind,
                        column: nc,
                        backwards: !b,
                        ..walked
                    },
                ),
                Crossing::VerticalOnTop => Ok(TraceState { row: nr, column: nc, backwards: !b, ..walked }),
                Crossing::HorizontalOnTop => Ok(TraceState { row: behind, column: nc, backwards: !b, ..walked }),
            }
        }
    }
}

pub open spec fn trace_step(s: TraceState) -> Result<TraceState, TraceFault> {
    if s.horizontal {
        horizontal_step(s)
    } else {
        vertical_step(s)
    }
}

/// The rest of a trace that has walked `steps` segments: the final state and
/// the number of segments walked once the tracer is back on the root's
/// horizontal rail.
pub open spec fn trace_from(s: TraceState, root_row: int, root_column: int, steps: int) -> Result<(TraceState, int), TraceFault>
    decreases MAX_TRACE_STEPS - steps,
{
    if steps < 0 || steps >= MAX_TRACE_STEPS {
        Err(TraceFault::TooLong)
    } else {
        match trace_step(s) {
            Err(e) => Err(e),
            Ok(t) => if t.row == root_row && t.column == root_column && t.horizontal {
                Ok((t, steps + 1))
            } else {
                trace_from(t, root_row, root_column, steps + 1)
            },
        }
    }
}

/// The state a trace starts from on freshly derived cells.
pub open spec fn initial_trace_state(cells: Seq<Seq<bool>>, rows: int, columns: int, root_row: int, root_column: int) -> TraceState {
    TraceState {
        horiz: derived_horizontal(cells, rows, columns),
        vert: derived_vertical(cells, rows, columns),
        reach_h: filled(rows + 1, columns, false),
        reach_v: filled(rows, columns + 1, false),
        crossings: derived_crossings(cells, rows, columns),
        row: root_row,
        column: root_column,
        horizontal: true,
        backwards: false,
    }
}

/// The full trace of a grid's cells from its root.
pub open spec fn trace_of(cells: Seq<Seq<bool>>, rows: int, columns: int, root_row: int, root_column: int) -> Result<(TraceState, int), TraceFault> {
    trace_from(initial_trace_state(cells, rows, columns, root_row, root_column), root_row, root_column, 0)
}

impl Grid {
    /// The trace state held by the grid with the tracer at the given place.
    pub open spec fn trace_view(&self, row: int, column: int, horizontal: bool, backwards: bool) -> TraceState {
        TraceState {
            horiz: self.rails.horiz(),
            vert: self.rails.vert(),
            reach_h: self.reachable_rails.horiz(),
            reach_v: self.reachable_rails.vert(),
            crossings: self.intersections.view(),
            row,
            column,
            horizontal,
            backwards,
        }
    }

    /// The grid holds the outcome `t` of a trace.
    pub open spec fn holds_trace(&self, t: TraceState) -> bool {
        &&& self.rails.horiz() == t.horiz
        &&& self.rails.vert() == t.vert
        &&& self.reachable_rails.horiz() == t.reach_h
        &&& self.reachable_rails.vert() == t.reach_v
        &&& self.intersections.view() == t.crossings
    }
}

/// Writes `v` at row `r`, column `c` of a matrix.
pub fn set_entry<T: Copy>(m: &mut Vec<Vec<T>>, r: usize, c: usize, v: T)
    requires
        r < old(m)@.len(),
        c < old(m)@[r as int]@.len(),
    ensures
        matrix_view(final(m)@) == set2(matrix_view(old(m)@), r as int, c as int, v),
        final(m)@.len() == old(m)@.len(),
        forall|i: int| 0 <= i < old(m)@.len() ==> (#[trigger] final(m)@[i])@.len() == old(m)@[i]@.len(),
{
    m[r][c] = v;
    assert(matrix_view(m@) =~~= set2(matrix_view(old(m)@), r as int, c as int, v));
}

/// Where the tracer stands: on the horizontal or vertical rail at `row`,
/// `column`, and whether rail directions are read reversed.
struct Cursor {
    row: i64,
    column: i64,
    horizontal: bool,
    backwards: bool,
}

impl Grid {
    /// Only the rails, the reachable flags and the crossings differ from `old`.
    pub open spec fn same_but_trace(&self, old: Grid) -> bool {
        *self == (Grid {
            rails: self.rails,
            reachable_rails: self.reachable_rails,
            intersections: self.intersections,
            ..old
        })
    }

    #[verifier::rlimit(50)]
    fn step_horizontal(&mut self, cursor: &mut Cursor) -> (r: Result<(), TraceFault>)
        requires
            old(self).wf(),
            old(cursor).horizontal,
            -1 <= old(cursor).row <= MAX_COORD,
            -1 <= old(cursor).column <= MAX_COORD,
        ensures
            final(self).wf(),
            final(self).same_but_trace(*old(self)),
            match horizontal_step(old(self).trace_view(old(cursor).row as int, old(cursor).column as int, true, old(cursor).backwards)) {
                Ok(t) => r is Ok && final(self).holds_trace(t) && final(cursor).row == t.row && final(cursor).column == t.column
                    && final(cursor).horizontal == t.horizontal && final(cursor).backwards == t.backwards,
                Err(e) => r == Err::<(), TraceFault>(e),
            },
            -1 <= final(cursor).row <= MAX_COORD,
            -1 <= final(cursor).column <= MAX_COORD,
    {
        let b = cursor.backwards;
        if cursor.row < 0 || cursor.column < 0 || cursor.row as usize >= self.rails.horizontal.len()
            || cursor.column as usize >= self.rails.horizontal[cursor.row as usize].len() {
            return Err(TraceFault::OffGrid);
        }
        let row = cursor.row as usize;
        let column = cursor.column as usize;
        set_entry(&mut self.reachable_rails.horizontal, row, column, true);
        let mut h = self.rails.horizontal[row][column];
        if b {
            h = h.opposite();
            set_entry(&mut self.rails.horizontal, row, column, h);
        }
        if h == Horizontal::Center {
            return Err(TraceFault::CenterRail);
        }
        let nr = row;
        let nc = if h == Horizontal::Right { column + 1 } else { column };
        if nr >= self.intersections.inner.len() || nc >= self.intersections.inner[nr].len() {
            return Err(TraceFault::OffGrid);
        }
        let behind: i64 = if h == Horizontal::Left { nc as i64 - 1 } else { nc as i64 };
        match self.intersections.inner[nr][nc].crossing {
            Crossing::Empty => Err(TraceFault::EmptyCrossing),
            Crossing::Single => {
                if !(1 <= nr && 1 <= nc && nr < self.rails.vertical.len() && nc < self.rails.vertical[nr - 1].len()
                    && nc < self.rails.vertical[nr].len() && nc < self.rails.horizontal[nr].len()) {
                    return Err(TraceFault::OffGrid);
                }
                let mut above = self.rails.vertical[nr - 1][nc];
                let mut below = self.rails.vertical[nr][nc];
                let mut left = self.rails.horizontal[nr][nc - 1];
                let mut right = self.rails.horizontal[nr][nc];
                if b {
                    above = above.opposite();
                    below = below.opposite();
                    left = left.opposite();
                    right = right.opposite();
                }
                if below == Vertical::Bottom {
                    cursor.horizontal = false;
                    cursor.row = nr as i64;
                    cursor.column = nc as i64;
                } else if above == Vertical::Top {
                    cursor.horizontal = false;
                    cursor.row = nr as i64 - 1;
                    cursor.column = nc as i64;
                } else if left == h && left == Horizontal::Left {
                    cursor.row = nr as i64;
                    cursor.column = nc as i64 - 1;
                } else if right == h && right == Horizontal::Right {
                    cursor.row = nr as i64;
                    cursor.column = nc as i64;
                } else {
                    return Err(TraceFault::NoExit);
                }
                Ok(())
            },
            Crossing::TopLeftToBottomRight | Crossing::TopRightToBottomLeft => {
                set_entry(&mut self.intersections.inner, nr, nc, Intersection { crossing: Crossing::HorizontalOnTop });
                cursor.backwards = !b;
                cursor.row = nr as i64;
                cursor.column = behind;
                Ok(())
            },
            Crossing::VerticalOnTop => {
                cursor.backwards = !b;
                cursor.row = nr as i64;
                cursor.column = behind;
                Ok(())
            },
            Crossing::HorizontalOnTop => {
                cursor.backwards = !b;
                cursor.row = nr as i64;
                cursor.column = nc as i64;
                Ok(())
            },
        }
    }

    #[verifier::rlimit(50)]
    fn step_vertical(&mut self, cursor: &mut Cursor) -> (r: Result<(), TraceFault>)
        requires
            old(self).wf(),
            !old(cursor).horizontal,
            -1 <= old(cursor).row <= MAX_COORD,
            -1 <= old(cursor).column <= MAX_COORD,
        ensures
            final(self).wf(),
            final(self).same_but_trace(*old(self)),
            match vertical_step(old(self).trace_view(old(cursor).row as int, old(cursor).column as int, false, old(cursor).backwards)) {
                Ok(t) => r is Ok && final(self).holds_trace(t) && final(cursor).row == t.row && final(cursor).column == t.column
                    && final(cursor).horizontal == t.horizontal && final(cursor).backwards == t.backwards,
                Err(e) => r == Err::<(), TraceFault>(e),
            },
            -1 <= final(cursor).row <= MAX_COORD,
            -1 <= final(cursor).column <= MAX_COORD,
    {
        let b = cursor.backwards;
        if cursor.row < 0 || cursor.column < 0 || cursor.row as usize >= self.rails.vertical.len()
            || cursor.column as usize >= self.rails.vertical[cursor.row as usize].len() {
            return Err(TraceFault::OffGrid);
        }
        let row = cursor.row as usize;
        let column = cursor.column as usize;
        set_entry(&mut self.reachable_rails.vertical, row, column, true);
        let mut v = self.rails.vertical[row][column];
        if b {
            v = v.opposite();
            set_entry(&mut self.rails.vertical, row, column, v);
        }
        if v == Vertical::Center {
            return Err(TraceFault::CenterRail);
        }
        let nr = if v == Vertical::Bottom { row + 1 } else { row };
        let nc = column;
        if nr >= self.intersections.inner.len() || nc >= self.intersections.inner[nr].len() {
            return Err(TraceFault::OffGrid);
        }
        let behind: i64 = if v == Vertical::Bottom { nr as i64 } else { nr as i64 - 1 };
        match self.intersections.inner[nr][nc].crossing {
            Crossing::Empty => Err(TraceFault::EmptyCrossing),
            Crossing::Single => {
                if !(1 <= nr && 1 <= nc && nr < self.rails.vertical.len() && nc < self.rails.vertical[nr - 1].len()
                    && nc < self.rails.vertical[nr].len() && nc < self.rails.horizontal[nr].len()) {
                    return Err(TraceFault::OffGrid);
                }
                let mut above = self.rails.vertical[nr - 1][nc];
                let mut below = self.rails.vertical[nr][nc];
                let mut left = self.rails.horizontal[nr][nc - 1];
                let mut right = self.rails.horizontal[nr][nc];
                if b {
                    above = above.opposite();
                    below = below.opposite();
                    left = left.opposite();
                    right = right.opposite();
                }
                if right == Horizontal::Right {
                    cursor.horizontal = true;
                    cursor.row = nr as i64;
                    cursor.column = nc as i64;
                } else if left == Horizontal::Left {
                    cursor.horizontal = true;
                    cursor.row = nr as i64;
                    cursor.column = nc as i64 - 1;
                } else if above == v && above == Vertical::Top {
                    cursor.row = nr as i64 - 1;
                    cursor.column = nc as i64;
                } else if below == v && below == Vertical::Bottom {
                    cursor.row = nr as i64;
                    cursor.column = nc as i64;
                } else {
                    return Err(TraceFault::NoExit);
                }
                Ok(())
            },
            Crossing::TopLeftToBottomRight | Crossing::TopRightToBottomLeft => {
                set_entry(&mut self.intersections.inner, nr, nc, Intersection { crossing: Crossing::VerticalOnTop });
                cursor.backwards = !b;
                cursor.row = behind;
                cursor.column = nc as i64;
                Ok(())
            },
            Crossing::VerticalOnTop => {
                cursor.backwards = !b;
                cursor.row = nr as i64;
                cursor.column = nc as i64;
                Ok(())
            },
            Crossing::HorizontalOnTop => {
                cursor.backwards = !b;
                cursor.row = behind;
                cursor.column = nc as i64;
                Ok(())
            },
        }
    }
}

impl Grid {
    /// Walks the loop from the root's horizontal rail until it comes back
    /// there, flipping the rails walked backwards, marking each rail walked as
    /// reachable and resolving each diagonal crossing passed.
    pub fn trace_loop(&mut self) -> (r: Result<(), TraceFault>)
        requires
            old(self).wf(),
        ensures
            final(self).wf(),
            match trace_from(old(self).trace_view(old(self).root.y as int, old(self).root.x as int, true, false),
                old(self).root.y as int, old(self).root.x as int, 0) {
                Ok((t, n)) => r == Ok::<(), TraceFault>(()) && final(self).holds_trace(t) && final(self).reachable_rails_count == n,
                Err(e) => r == Err::<(), TraceFault>(e) && final(self).reachable_rails_count == old(self).reachable_rails_count,
            },
            *final(self) == (Grid {
                rails: final(self).rails,
                reachable_rails: final(self).reachable_rails,
                intersections: final(self).intersections,
                reachable_rails_count: final(self).reachable_rails_count,
                ..*old(self)
            }),
    {
        let ghost start = *self;
        let ghost root_row = self.root.y as int;
        let ghost root_column = self.root.x as int;
        let ghost whole = trace_from(self.trace_view(root_row, root_column, true, false), root_row, root_column, 0);
        if self.root.y < 0 || self.root.x < 0 || self.root.y as i64 > MAX_COORD || self.root.x as i64 > MAX_COORD {
            assert(!in_bounds(self.rails.horiz(), root_row, root_column));
            return Err(TraceFault::OffGrid);
        }
        let root_y = self.root.y as i64;
        let root_x = self.root.x as i64;
        let mut cursor = Cursor { row: root_y, column: root_x, horizontal: true, backwards: false };
        let mut iterations: u32 = 0;
        loop
            invariant_except_break
                whole == trace_from(
                    self.trace_view(cursor.row as int, cursor.column as int, cursor.horizontal, cursor.backwards),
                    root_row, root_column, iterations as int),
            invariant
                self.wf(),
                self.same_but_trace(start),
                start == *old(self),
                root_y == root_row,
                root_x == root_column,
                root_row == self.root.y,
                root_column == self.root.x,
                iterations <= MAX_TRACE_STEPS,
                -1 <= cursor.row <= MAX_COORD,
                -1 <= cursor.column <= MAX_COORD,
                whole == trace_from(
                    start.trace_view(root_row, root_column, true, false), root_row, root_column, 0),
            ensures
                whole == Ok::<(TraceState, int), TraceFault>((
                    self.trace_view(cursor.row as int, cursor.column as int, cursor.horizontal, cursor.backwards),
                    iterations as int)),
            decreases MAX_TRACE_STEPS - iterations,
        {
            if iterations >= MAX_TRACE_STEPS {
                return Err(TraceFault::TooLong);
            }
            let step = if cursor.horizontal {
                self.step_horizontal(&mut cursor)
            } else {
                self.step_vertical(&mut cursor)
            };
            if let Err(e) = step {
                return Err(e);
            }
            iterations += 1;
            if cursor.row == root_y && cursor.column == root_x && cursor.horizontal {
                break;
            }
        }
        self.reachable_rails_count = iterations as i32;
        Ok(())
    }
}

impl Grid {
    /// The rails, crossings and reachable flags are those that recalculating
    /// the grid's own cells gives; when the trace fails, the rails and
    /// crossings are the derived ones and no rail counts as reached.
    pub open spec fn is_recalculated(&self) -> bool {
        let cells = self.cells_view();
        let rows = self.num_rows as int;
        let columns = self.num_columns as int;
        &&& self.wf()
        &&& self.total_rails == rail_sum(cells, rows, columns)
        &&& match trace_of(cells, rows, columns, self.root.y as int, self.root.x as int) {
            Ok((t, n)) => self.holds_trace(t) && self.reachable_rails_count == n,
            Err(e) => self.is_derived() && self.reachable_rails_count == 0,
        }
    }

    /// `self` is what recalculating `before` gives, with result `r`: the cells
    /// and settings are kept, the rails are counted, and when the trace of the
    /// cells closes, the grid holds its outcome and its number of steps.
    pub open spec fn recalculation_of(&self, before: Grid, r: Result<(), TraceFault>) -> bool {
        let cells = before.cells_view();
        let rows = before.num_rows as int;
        let columns = before.num_columns as int;
        &&& self.is_recalculated()
        &&& self.num_rows == before.num_rows
        &&& self.num_columns == before.num_columns
        &&& self.cells == before.cells
        &&& self.fixed_cells == before.fixed_cells
        &&& self.fixed_rails == before.fixed_rails
        &&& self.root == before.root
        &&& self.total_rails == rail_sum(cells, rows, columns)
        &&& match trace_of(cells, rows, columns, before.root.y as int, before.root.x as int) {
            Ok((t, n)) => r == Ok::<(), TraceFault>(()) && self.holds_trace(t) && self.reachable_rails_count == n,
            Err(e) => r == Err::<(), TraceFault>(e),
        }
    }

    /// Derives the rails and crossings from the cells, then traces the loop
    /// from the root; when the trace fails, the derived rails and crossings
    /// are restored and nothing counts as reached.
    pub fn recalculate_rails(&mut self) -> (r: Result<(), TraceFault>)
        requires
            old(self).wf(),
        ensures
            final(self).recalculation_of(*old(self), r),
    {
        self.derive_rails();
        assert(self.trace_view(self.root.y as int, self.root.x as int, true, false) == initial_trace_state(
            self.cells_view(), self.num_rows as int, self.num_columns as int, self.root.y as int, self.root.x as int));
        let r = self.trace_loop();
        if r.is_err() {
            self.derive_rails();
        }
        r
    }
}

/// Recalculating twice gives the same result, rails, reachable flags and
/// crossings as recalculating once.
pub proof fn lemma_recalculate_idempotent(g: Grid, once: Grid, twice: Grid, r1: Result<(), TraceFault>, r2: Result<(), TraceFault>)
    requires
        once.recalculation_of(g, r1),
        twice.recalculation_of(once, r2),
    ensures
        r1 == r2,
        twice.cells == once.cells,
        twice.total_rails == once.total_rails,
        twice.rails.horiz() == once.rails.horiz() && twice.rails.vert() == once.rails.vert()
            && twice.reachable_rails.horiz() == once.reachable_rails.horiz()
            && twice.reachable_rails.vert() == once.reachable_rails.vert()
            && twice.intersections.view() == once.intersections.view()
            && twice.reachable_rails_count == once.reachable_rails_count,
{
    assert(once.cells_view() == g.cells_view());
}

} // verus!
