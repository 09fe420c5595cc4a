//! A point whose two coordinates may have different types.

use vstd::prelude::*;

verus! {

/// A point with an `x` coordinate of one type and a `y` coordinate of
/// another.
pub struct Point<T, U> {
    pub x: T,
    pub y: U,
}

impl<T, U> Point<T, U> {
    /// Combines this point's `x` coordinate with another point's `y`
    /// coordinate into a new point.
    pub fn mixup<V, W>(self, other: Point<V, W>) -> (r: Point<T, W>)
        ensures
            r.x == self.x,
            r.y == other.y,
    {
        Point { x: self.x, y: other.y }
    }
}

} // verus!
