use vstd::prelude::*;

verus! {

/// One voxel: an index into the block type registry.
#[derive(Debug, Clone, Copy, PartialEq, Eq, Structural)]
pub struct Block {
    pub block_type: u16,
}

} // verus!
