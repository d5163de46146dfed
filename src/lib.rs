//! Rail-topology engine of a grid loop puzzle: cells are toggled on a grid, the
//! boundary between active and inactive cells forms rails, and a tracer walks
//! the rails from a root point to tell whether they make a single closed loop.
pub mod logic;
pub mod levels;
pub mod level_history;
pub mod tuples;

use vstd::prelude::*;

verus! {

/// A `num_rows` x `num_columns` matrix holding `default` everywhere.
pub fn generate_nested_vec<T: Copy>(num_rows: usize, num_columns: usize, default: T) -> (r: Vec<Vec<T>>)
    ensures
        r@.len() == num_rows,
        forall|i: int| 0 <= i < num_rows ==> (#[trigger] r@[i])@ == Seq::new(num_columns as nat, |j: int| default),
{
    let mut inner: Vec<Vec<T>> = Vec::new();
    let mut i: usize = 0;
    while i < num_rows
        invariant
            i <= num_rows,
            inner@.len() == i,
            forall|k: int| 0 <= k < i ==> (#[trigger] inner@[k])@ == Seq::new(num_columns as nat, |j: int| default),
        decreases num_rows - i,
    {
        let mut row: Vec<T> = Vec::new();
        let mut j: usize = 0;
        while j < num_columns
            invariant
                j <= num_columns,
                row@ == Seq::new(j as nat, |k: int| default),
            decreases num_columns - j,
        {
            row.push(default);
            j += 1;
            assert(row@ =~= Seq::new(j as nat, |k: int| default));
        }
        inner.push(row);
        i += 1;
    }
    inner
}

} // verus!
