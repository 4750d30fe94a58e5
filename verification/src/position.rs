//! Block positions.

use vstd::prelude::*;

verus! {

/// A block in a world.
#[derive(Clone, Copy, Debug, PartialEq, Eq, Structural)]
pub struct BlockPos {
    pub x: i32,
    pub y: i32,
    pub z: i32,
}

impl BlockPos {
    #[must_use]
    pub fn new(x: i32, y: i32, z: i32) -> (position: Self)
        ensures
            position == (BlockPos { x, y, z }),
    {
        BlockPos { x, y, z }
    }
}

} // verus!
