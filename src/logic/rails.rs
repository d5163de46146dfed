use crate::generate_nested_vec;
use vstd::prelude::*;

verus! {

/// Direction of a rail on a horizontal edge: which of the two cells it
/// separates is active (`Right`: the one below, `Left`: the one above).
#[derive(Debug, Copy, Clone, PartialEq, Eq, Structural)]
pub enum Horizontal {
    Left,
    Center,
    Right,
}

/// Direction of a rail on a vertical edge: `Top` when the cell to its right is
/// active, `Bottom` when the one to its left is.
#[derive(Debug, Copy, Clone, PartialEq, Eq, Structural)]
pub enum Vertical {
    Top,
    Center,
    Bottom,
}

pub open spec fn horizontal_opposite(h: Horizontal) -> Horizontal {
    match h {
        Horizontal::Left => Horizontal::Right,
        Horizontal::Center => Horizontal::Center,
        Horizontal::Right => Horizontal::Left,
    }
}

pub open spec fn vertical_opposite(v: Vertical) -> Vertical {
    match v {
        Vertical::Top => Vertical::Bottom,
        Vertical::Center => Vertical::Center,
        Vertical::Bottom => Vertical::Top,
    }
}

impl Horizontal {
    pub fn opposite(self) -> (r: Horizontal)
        ensures
            r == horizontal_opposite(self),
    {
        match self {
            Horizontal::Left => Horizontal::Right,
            Horizontal::Center => Horizontal::Center,
            Horizontal::Right => Horizontal::Left,
        }
    }
}

impl Vertical {
    pub fn opposite(self) -> (r: Vertical)
        ensures
            r == vertical_opposite(self),
    {
        match self {
            Vertical::Top => Vertical::Bottom,
            Vertical::Center => Vertical::Center,
            Vertical::Bottom => Vertical::Top,
        }
    }
}

/// A value per horizontal edge (`rows + 1` x `columns`) and per vertical edge
/// (`rows` x `columns + 1`) of a grid of cells.
#[derive(Clone)]
pub struct Rails<H, V> {
    pub horizontal: Vec<Vec<H>>,
    pub vertical: Vec<Vec<V>>,
}

/// The matrix `m` has `rows` rows of `columns` entries each.
pub open spec fn is_matrix<T>(m: Seq<Vec<T>>, rows: int, columns: int) -> bool {
    &&& m.len() == rows
    &&& forall|i: int| 0 <= i < rows ==> (#[trigger] m[i])@.len() == columns
}

/// The rows of a matrix as sequences.
pub open spec fn matrix_view<T>(m: Seq<Vec<T>>) -> Seq<Seq<T>> {
    Seq::new(m.len(), |i: int| m[i]@)
}

impl<H: Copy, V: Copy> Rails<H, V> {
    /// The rails of a grid of `rows` x `columns` cells hold their edge shapes.
    pub open spec fn has_shape(&self, rows: int, columns: int) -> bool {
        &&& is_matrix(self.horizontal@, rows + 1, columns)
        &&& is_matrix(self.vertical@, rows, columns + 1)
    }

    pub open spec fn horiz(&self) -> Seq<Seq<H>> {
        matrix_view(self.horizontal@)
    }

    pub open spec fn vert(&self) -> Seq<Seq<V>> {
        matrix_view(self.vertical@)
    }

    pub fn new(num_rows: i32, num_columns: i32, horizontal_default: H, vertical_default: V) -> (r: Self)
        requires
            0 <= num_rows < i32::MAX,
            0 <= num_columns < i32::MAX,
        ensures
            r.has_shape(num_rows as int, num_columns as int),
            forall|i: int, j: int| 0 <= i <= num_rows && 0 <= j < num_columns
                ==> #[trigger] r.horizontal@[i]@[j] == horizontal_default,
            forall|i: int, j: int| 0 <= i < num_rows && 0 <= j <= num_columns
                ==> #[trigger] r.vertical@[i]@[j] == vertical_default,
    {
        let num_rows = num_rows as usize;
        let num_columns = num_columns as usize;
        let horizontal = generate_nested_vec(num_rows + 1, num_columns, horizontal_default);
        let vertical = generate_nested_vec(num_rows, num_columns + 1, vertical_default);
        Rails { horizontal, vertical }
    }

    pub fn horiz_rows(&self) -> (r: i32)
        requires
            self.horizontal@.len() <= i32::MAX,
        ensures
            r == self.horizontal@.len(),
    {
        self.horizontal.len() as i32
    }

    pub fn horiz_columns(&self) -> (r: i32)
        requires
            self.horizontal@.len() > 0,
            self.horizontal@[0]@.len() <= i32::MAX,
        ensures
            r == self.horizontal@[0]@.len(),
    {
        self.horizontal[0].len() as i32
    }

    pub fn vert_rows(&self) -> (r: i32)
        requires
            self.vertical@.len() <= i32::MAX,
        ensures
            r == self.vertical@.len(),
    {
        self.vertical.len() as i32
    }

    pub fn vert_columns(&self) -> (r: i32)
        requires
            self.vertical@.len() > 0,
            self.vertical@[0]@.len() <= i32::MAX,
        ensures
            r == self.vertical@[0]@.len(),
    {
        self.vertical[0].len() as i32
    }

    pub fn get_horiz(&self, row: i32, column: i32) -> (r: H)
        requires
            0 <= row < self.horizontal@.len(),
            0 <= column < self.horizontal@[row as int]@.len(),
        ensures
            r == self.horizontal@[row as int]@[column as int],
    {
        self.horizontal[row as usize][column as usize]
    }

    pub fn get_horiz_mut(&mut self, row: i32, column: i32) -> (r: &mut H)
        requires
            0 <= row < old(self).horizontal@.len(),
            0 <= column < old(self).horizontal@[row as int]@.len(),
        ensures
            *r == old(self).horizontal@[row as int]@[column as int],
            final(self).vertical == old(self).vertical,
            final(self).horizontal@.len() == old(self).horizontal@.len(),
            forall|i: int| 0 <= i < old(self).horizontal@.len() && i != row ==> final(self).horizontal@[i] == old(self).horizontal@[i],
            final(self).horizontal@[row as int]@ == old(self).horizontal@[row as int]@.update(column as int, *final(r)),
    {
        &mut self.horizontal[row as usize][column as usize]
    }

    pub fn get_vert(&self, row: i32, column: i32) -> (r: V)
        requires
            0 <= row < self.vertical@.len(),
            0 <= column < self.vertical@[row as int]@.len(),
        ensures
            r == self.vertical@[row as int]@[column as int],
    {
        self.vertical[row as usize][column as usize]
    }

    pub fn get_vert_mut(&mut self, row: i32, column: i32) -> (r: &mut V)
        requires
            0 <= row < old(self).vertical@.len(),
            0 <= column < old(self).vertical@[row as int]@.len(),
        ensures
            *r == old(self).vertical@[row as int]@[column as int],
            final(self).horizontal == old(self).horizontal,
            final(self).vertical@.len() == old(self).vertical@.len(),
            forall|i: int| 0 <= i < old(self).vertical@.len() && i != row ==> final(self).vertical@[i] == old(self).vertical@[i],
            final(self).vertical@[row as int]@ == old(self).vertical@[row as int]@.update(column as int, *final(r)),
    {
        &mut self.vertical[row as usize][column as usize]
    }
}

} // verus!
