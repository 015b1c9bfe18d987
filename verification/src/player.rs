use vstd::prelude::*;
use crate::consts::CHUNK_SIZE;

verus! {

/// The chunk that a player stands in.
#[derive(Debug, Clone, Copy, PartialEq, Eq, Default, Structural)]
pub struct ChunkLocation(pub i64, pub i64);

/// The chunk coordinate of a block coordinate: the block coordinate divided by the chunk
/// size, rounded down.
pub open spec fn spec_chunk_coordinate(block: int) -> int {
    block / (CHUNK_SIZE as int)
}

/// The chunk coordinate of a block coordinate: the block coordinate divided by the chunk
/// size, rounded down (also below zero: block -1 lies in chunk -1).
pub fn chunk_coordinate(block: i64) -> (chunk: i64)
    ensures
        chunk == spec_chunk_coordinate(block as int),
        chunk * 16 <= block < chunk * 16 + 16,
{
    if block >= 0 {
        block / 16
    } else {
        let up: i64 = (block + 1) / 16;
        up - 1
    }
}

impl ChunkLocation {
    /// The location of the chunk that holds the block column `(block_x, block_z)`.
    pub fn containing(block_x: i64, block_z: i64) -> (location: Self)
        ensures
            location.0 == spec_chunk_coordinate(block_x as int),
            location.1 == spec_chunk_coordinate(block_z as int),
    {
        ChunkLocation(chunk_coordinate(block_x), chunk_coordinate(block_z))
    }

    /// Sets the location to `(x, y)` and says whether that changed it.
    pub fn move_to(&mut self, x: i64, y: i64) -> (changed: bool)
        ensures
            *final(self) == ChunkLocation(x, y),
            changed == (*old(self) != ChunkLocation(x, y)),
    {
        if self.0 != x || self.1 != y {
            self.0 = x;
            self.1 = y;
            true
        } else {
            false
        }
    }
}

} // verus!
