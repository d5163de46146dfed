use vstd::prelude::*;

verus! {

/// Splits an array of pairs into the array of first items and the array of
/// second items.
pub fn split_tuple<const N: usize, T: Copy, U: Copy>(array: [(T, U); N]) -> (r: ([T; N], [U; N]))
    requires
        N >= 1,
    ensures
        forall|i: int| 0 <= i < N ==> (#[trigger] r.0@[i]) == array@[i].0 && r.1@[i] == array@[i].1,
{
    let mut ts: [T; N] = [array[0].0; N];
    let mut us: [U; N] = [array[0].1; N];
    let mut i: usize = 0;
    while i < N
        invariant
            i <= N,
            forall|k: int| 0 <= k < i ==> (#[trigger] ts@[k]) == array@[k].0 && us@[k] == array@[k].1,
        decreases N - i,
    {
        ts[i] = array[i].0;
        us[i] = array[i].1;
        i += 1;
    }
    (ts, us)
}

} // verus!
