//! Fixed-point coordinates in normalized device space.
//!
//! A coordinate is an `i64` holding a real number scaled by [`COORD_ONE`],
//! so `COORD_ONE` is 1.0 and `-COORD_ONE` is -1.0.  Normalized device space
//! ranges conceptually over [-1.0, 1.0] but coordinates are never clamped.
use vstd::prelude::*;

verus! {

/// The fixed-point representation of 1.0.
pub const COORD_ONE: i64 = 65536;

/// A 2D point in normalized device space, in fixed-point coordinates.
#[derive(Clone, Copy, Debug, PartialEq, Eq, Structural)]
pub struct Point {
    pub x: i64,
    pub y: i64,
}

impl Point {
    /// The origin of normalized device space.
    pub fn origin() -> (p: Point)
        ensures
            p == (Point { x: 0, y: 0 }),
    {
        Point { x: 0, y: 0 }
    }
}

} // verus!
