//! A pair of two values of one type.

use vstd::prelude::*;

verus! {

/// A pair of two values of the same type.
pub struct Pair<T> {
    pub x: T,
    pub y: T,
}

impl<T> Pair<T> {
    /// Builds a pair from its two members.
    pub fn new(x: T, y: T) -> (r: Self)
        ensures
            r.x == x,
            r.y == y,
    {
        Self { x, y }
    }
}

} // verus!
