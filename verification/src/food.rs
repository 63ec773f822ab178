//! The single active pickup.
use vstd::prelude::*;

verus! {

/// One pickup at a whole cell. At most one food is active at a time: while a
/// replacement is being computed, `exists` is false and the food is neither
/// drawn nor eatable.
#[derive(Clone, Copy, PartialEq, Eq, Structural)]
pub struct Food {
    /// Cell column.
    pub x: i64,
    /// Cell row.
    pub y: i64,
    /// Whether this food is active.
    pub exists: bool,
}

impl Food {
    /// The seed food of a fresh session.
    pub fn new() -> (f: Food)
        ensures
            f == (Food { x: 15, y: 15, exists: true }),
    {
        Food { x: 15, y: 15, exists: true }
    }
}

} // verus!
