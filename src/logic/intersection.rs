use crate::generate_nested_vec;
use crate::logic::rails::{is_matrix, matrix_view, Horizontal, Vertical};
use vstd::prelude::*;

verus! {

/// Orientation of a rail relative to the vertex it touches.
#[derive(Debug, Copy, Clone, PartialEq, Eq, Structural)]
pub enum Direction {
    Inwards,
    Outwards,
    Absent,
}

impl Direction {
    pub fn invert(self) -> (r: Self)
        ensures
            r == (match self {
                Direction::Inwards => Direction::Outwards,
                Direction::Outwards => Direction::Inwards,
                Direction::Absent => Direction::Absent,
            }),
    {
        match self {
            Direction::Inwards => Direction::Outwards,
            Direction::Outwards => Direction::Inwards,
            Direction::Absent => Direction::Absent,
        }
    }
}

pub open spec fn direction_of_vertical(v: Vertical) -> Direction {
    match v {
        Vertical::Top => Direction::Inwards,
        Vertical::Center => Direction::Absent,
        Vertical::Bottom => Direction::Outwards,
    }
}

pub open spec fn direction_of_horizontal(h: Horizontal) -> Direction {
    match h {
        Horizontal::Left => Direction::Inwards,
        Horizontal::Center => Direction::Absent,
        Horizontal::Right => Direction::Outwards,
    }
}

impl From<Vertical> for Direction {
    fn from(value: Vertical) -> (r: Self) {
        match value {
            Vertical::Top => Direction::Inwards,
            Vertical::Center => Direction::Absent,
            Vertical::Bottom => Direction::Outwards,
        }
    }
}

impl vstd::std_specs::convert::FromSpecImpl<Vertical> for Direction {
    open spec fn obeys_from_spec() -> bool {
        true
    }

    open spec fn from_spec(v: Vertical) -> Direction {
        direction_of_vertical(v)
    }
}

impl From<Horizontal> for Direction {
    fn from(value: Horizontal) -> (r: Self) {
        match value {
            Horizontal::Left => Direction::Inwards,
            Horizontal::Center => Direction::Absent,
            Horizontal::Right => Direction::Outwards,
        }
    }
}

impl vstd::std_specs::convert::FromSpecImpl<Horizontal> for Direction {
    open spec fn obeys_from_spec() -> bool {
        true
    }

    open spec fn from_spec(h: Horizontal) -> Direction {
        direction_of_horizontal(h)
    }
}

/// Classification of a grid vertex by the four cells around it.
#[derive(Debug, Copy, Clone, PartialEq, Eq, Structural)]
pub enum Crossing {
    /// No active cell touches the vertex.
    Empty,
    /// One to three of the four cells are active, and not in a diagonal pattern.
    Single,
    /// Only the cells above and to the left are active.
    TopLeftToBottomRight,
    /// Only the cell below-right and the one above-left are active.
    TopRightToBottomLeft,
    /// A diagonal vertex that the tracer first passed along the vertical lane.
    VerticalOnTop,
    /// A diagonal vertex that the tracer first passed along the horizontal lane.
    HorizontalOnTop,
}

#[derive(Debug, Copy, Clone, PartialEq, Eq, Structural)]
pub struct Intersection {
    pub crossing: Crossing,
}

impl Intersection {
    pub fn new(crossing: Crossing) -> (r: Self)
        ensures
            r.crossing == crossing,
    {
        Self { crossing }
    }
}

impl Default for Intersection {
    fn default() -> (r: Self)
        ensures
            r.crossing == Crossing::Empty,
    {
        Self { crossing: Crossing::Empty }
    }
}

/// One intersection per vertex of a grid: `rows + 1` x `columns + 1`.
#[derive(Clone)]
pub struct Intersections {
    pub inner: Vec<Vec<Intersection>>,
}

impl Intersections {
    pub open spec fn view(&self) -> Seq<Seq<Intersection>> {
        matrix_view(self.inner@)
    }

    pub open spec fn has_shape(&self, rows: int, columns: int) -> bool {
        is_matrix(self.inner@, rows, columns)
    }

    pub fn new(num_rows: i32, num_columns: i32) -> (r: Self)
        requires
            0 <= num_rows < i32::MAX,
            0 <= num_columns < i32::MAX,
        ensures
            r.has_shape(num_rows + 1, num_columns + 1),
            forall|i: int, j: int| 0 <= i <= num_rows && 0 <= j <= num_columns
                ==> (#[trigger] r.inner@[i]@[j]).crossing == Crossing::Empty,
    {
        let inner = generate_nested_vec(
            num_rows as usize + 1,
            num_columns as usize + 1,
            Intersection { crossing: Crossing::Empty },
        );
        Self { inner }
    }

    pub fn rows(&self) -> (r: i32)
        requires
            self.inner@.len() <= i32::MAX,
        ensures
            r == self.inner@.len(),
    {
        self.inner.len() as i32
    }

    pub fn columns(&self) -> (r: i32)
        requires
            self.inner@.len() > 0,
            self.inner@[0]@.len() <= i32::MAX,
        ensures
            r == self.inner@[0]@.len(),
    {
        self.inner[0].len() as i32
    }

    pub fn get(&self, row: i32, column: i32) -> (r: Intersection)
        requires
            0 <= row < self.inner@.len(),
            0 <= column < self.inner@[row as int]@.len(),
        ensures
            r == self.inner@[row as int]@[column as int],
    {
        self.inner[row as usize][column as usize]
    }

    pub fn get_mut(&mut self, row: i32, column: i32) -> (r: &mut Intersection)
        requires
            0 <= row < old(self).inner@.len(),
            0 <= column < old(self).inner@[row as int]@.len(),
        ensures
            *r == old(self).inner@[row as int]@[column as int],
            final(self).inner@.len() == old(self).inner@.len(),
            forall|i: int| 0 <= i < old(self).inner@.len() && i != row ==> final(self).inner@[i] == old(self).inner@[i],
            final(self).inner@[row as int]@ == old(self).inner@[row as int]@.update(column as int, *final(r)),
    {
        &mut self.inner[row as usize][column as usize]
    }
}

pub open spec fn horiz_char(h: Horizontal) -> char {
    match h {
        Horizontal::Left => '<',
        Horizontal::Center => '-',
        Horizontal::Right => '>',
    }
}

pub open spec fn vert_char(v: Vertical) -> char {
    match v {
        Vertical::Top => '^',
        Vertical::Center => '|',
        Vertical::Bottom => 'v',
    }
}

pub open spec fn crossing_char(c: Crossing) -> char {
    match c {
        Crossing::Empty => '\u{2022}',
        Crossing::Single => 'o',
        Crossing::TopLeftToBottomRight => '\\',
        Crossing::TopRightToBottomLeft => '/',
        Crossing::VerticalOnTop => '"',
        Crossing::HorizontalOnTop => '=',
    }
}

/// The glyph that pictures a horizontal rail.
pub fn horiz_to_char(horizontal: Horizontal) -> (r: char)
    ensures
        r == horiz_char(horizontal),
{
    match horizontal {
        Horizontal::Left => '<',
        Horizontal::Center => '-',
        Horizontal::Right => '>',
    }
}

/// The glyph that pictures a vertical rail.
pub fn vert_to_char(vertical: Vertical) -> (r: char)
    ensures
        r == vert_char(vertical),
{
    match vertical {
        Vertical::Top => '^',
        Vertical::Center => '|',
        Vertical::Bottom => 'v',
    }
}

/// The glyph that pictures a vertex.
pub fn crossing_to_char(inter: Intersection) -> (r: char)
    ensures
        r == crossing_char(inter.crossing),
{
    match inter.crossing {
        Crossing::Empty => '\u{2022}',
        Crossing::Single => 'o',
        Crossing::TopLeftToBottomRight => '\\',
        Crossing::TopRightToBottomLeft => '/',
        Crossing::VerticalOnTop => '"',
        Crossing::HorizontalOnTop => '=',
    }
}

} // verus!
