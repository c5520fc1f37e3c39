//! Encoding helpers.

use vstd::prelude::*;

verus! {

/// The one-hot encoding of `index` among `n` positions: `n` entries, all `0`
/// except a `1` at `index`. An index outside `[0, n)` gives all zeros.
pub fn one_hot(index: usize, n: usize) -> (v: Vec<u8>)
    ensures
        v.len() == n,
        forall|i: int| 0 <= i < n ==> #[trigger] v[i] == if i == index { 1u8 } else { 0u8 },
{
    let mut v: Vec<u8> = Vec::with_capacity(n);
    let mut i: usize = 0;
    while i < n
        invariant
            i <= n,
            v.len() == i,
            forall|k: int| 0 <= k < i ==> #[trigger] v[k] == 0u8,
        decreases n - i,
    {
        v.push(0);
        i = i + 1;
    }
    if index < n {
        v.set(index, 1);
    }
    v
}

} // verus!
