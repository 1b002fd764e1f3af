use vstd::prelude::*;

verus! {

/// A fixed-dimension tuple of numbers, such as a cell coordinate on the grid.
#[derive(Copy, Clone, Debug)]
pub struct Point<T, const N: usize> {
    pub v: [T; N],
}

impl<T: Copy, const N: usize> Point<T, N> {
    /// Builds a point from its components.
    pub fn new(v: [T; N]) -> (r: Self)
        ensures
            r.v == v,
    {
        Point { v }
    }
}

} // verus!
