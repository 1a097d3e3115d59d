//! The two ways a paddle can be told to move.

use vstd::prelude::*;

verus! {

/// Direction of a paddle's movement.
#[derive(Clone, Copy, Debug, PartialEq, Eq, Structural)]
pub enum Direction {
    Up,
    Down,
}

} // verus!
