use vstd::prelude::*;
use crate::blocks::{key_taken, BlockMetadataView, BlockTypeManager};
use crate::consts::CHUNK_HEIGHT;
use crate::messages::{to_wire, wire_u64};
use crate::types::block::Block;
use crate::types::chunk::{in_chunk, lemma_linear_index, linear_index, ChunkData};

verus! {

/// Layers of noise that shape the terrain.
pub const TERRAIN_OCTAVES: usize = 6;

/// Layers of noise that shape the caves.
pub const CAVE_OCTAVES: usize = 2;

/// Layers of noise that place the ores.
pub const ORE_OCTAVES: usize = 1;

/// The height below which the terrain never falls.
pub const MIN_TERRAIN_HEIGHT: usize = 100;

/// The number of layers, from the bottom, in which bedrock can lie.
pub const MAX_BEDROCK_HEIGHT: usize = 3;

/// Whether caves are carved.
pub const GENERATE_CAVES: bool = true;

/// What the seeds of all chunks are derived from.
pub const PRNG_SEED: u64 = 0x0DDB1A5E5BAD5EED;

/// How many kinds of ore there are.
pub const ORE_KINDS: usize = 5;

/// The seed of the random numbers of the chunk at `(x, y)`: the world's seed, with the
/// bits of `x` and of `y` flipped into it.
pub fn chunk_seed(x: i64, y: i64) -> (seed: u64)
    ensures
        seed == PRNG_SEED ^ wire_u64(x) ^ wire_u64(y),
{
    PRNG_SEED ^ to_wire(x) ^ to_wire(y)
}

/// The keys of the block types that the terrain is made of, in the order of the fields of
/// [`TerrainBlocks`]: air, dirt, grass, stone, bedrock, then the ores.
pub open spec fn terrain_key(which: int) -> Seq<char> {
    if which == 0 {
        "air"@
    } else if which == 1 {
        "dirt"@
    } else if which == 2 {
        "grass"@
    } else if which == 3 {
        "stone"@
    } else if which == 4 {
        "bedrock"@
    } else if which == 5 {
        "coal_ore"@
    } else if which == 6 {
        "iron_ore"@
    } else if which == 7 {
        "gold_ore"@
    } else if which == 8 {
        "diamond_ore"@
    } else {
        "emerald_ore"@
    }
}

/// The key number `which` of the block types that the terrain is made of.
pub fn terrain_key_name(which: usize) -> (key: &'static str)
    requires
        which < 10,
    ensures
        key@ == terrain_key(which as int),
{
    if which == 0 {
        "air"
    } else if which == 1 {
        "dirt"
    } else if which == 2 {
        "grass"
    } else if which == 3 {
        "stone"
    } else if which == 4 {
        "bedrock"
    } else if which == 5 {
        "coal_ore"
    } else if which == 6 {
        "iron_ore"
    } else if which == 7 {
        "gold_ore"
    } else if which == 8 {
        "diamond_ore"
    } else {
        "emerald_ore"
    }
}

/// The numbers of the block types that the terrain is made of.
#[derive(Debug, Clone, Copy, PartialEq, Eq)]
pub struct TerrainBlocks {
    pub air: u16,
    pub dirt: u16,
    pub grass: u16,
    pub stone: u16,
    pub bedrock: u16,
    /// Coal, iron, gold, diamond and emerald ore, in this order.
    pub ores: [u16; 5],
}

/// Whether the block type with the key `key` can stand in a chunk: it is registered, under
/// a number that fits a block.
pub open spec fn usable_key(types: Seq<BlockMetadataView>, key: Seq<char>) -> bool {
    exists|i: int| 0 <= i < types.len() && i <= u16::MAX && (#[trigger] types[i]).key == key
}

/// The number of the block type with the key `key`, if it can stand in a chunk.
fn index_of(blocks: &BlockTypeManager, key: &str) -> (index: Option<u16>)
    requires
        blocks.wf(),
    ensures
        match index {
            Some(i) => i < blocks@.len() && blocks@[i as int].key == key@,
            None => !usable_key(blocks@, key@),
        },
{
    match blocks.get_by_key(key) {
        None => None,
        Some(meta) => match meta.index {
            None => None,
            Some(i) => if i <= 0xffff {
                Some(i as u16)
            } else {
                assert(!usable_key(blocks@, key@));
                None
            },
        },
    }
}

impl TerrainBlocks {
    /// Looks up the block types that the terrain is made of. Where one of them is not
    /// registered under a number that fits a block, the number of its key is returned.
    pub fn resolve(blocks: &BlockTypeManager) -> (found: Result<TerrainBlocks, usize>)
        requires
            blocks.wf(),
        ensures
            match found {
                Ok(terrain) => {
                    &&& forall|which: int| 0 <= which < 10 ==> usable_key(blocks@, terrain_key(which))
                    &&& terrain.air < blocks@.len()
                    &&& terrain.dirt < blocks@.len()
                    &&& terrain.grass < blocks@.len()
                    &&& terrain.stone < blocks@.len()
                    &&& terrain.bedrock < blocks@.len()
                    &&& forall|ore: int|
                        0 <= ore < 5 ==> (#[trigger] terrain.ores@[ore]) < blocks@.len()
                    &&& blocks@[terrain.air as int].key == terrain_key(0)
                    &&& blocks@[terrain.dirt as int].key == terrain_key(1)
                    &&& blocks@[terrain.grass as int].key == terrain_key(2)
                    &&& blocks@[terrain.stone as int].key == terrain_key(3)
                    &&& blocks@[terrain.bedrock as int].key == terrain_key(4)
                    &&& forall|ore: int|
                        0 <= ore < 5 ==> blocks@[(#[trigger] terrain.ores@[ore]) as int].key
                            == terrain_key(5 + ore)
                },
                Err(which) => {
                    &&& which < 10
                    &&& !usable_key(blocks@, terrain_key(which as int))
                    &&& forall|earlier: int|
                        0 <= earlier < which ==> usable_key(blocks@, terrain_key(earlier))
                },
            },
    {
        let mut found: [u16; 10] = [0, 0, 0, 0, 0, 0, 0, 0, 0, 0];
        let mut which: usize = 0;
        while which < 10
            invariant
                which <= 10,
                blocks.wf(),
                forall|k: int|
                    0 <= k < which as int ==> (#[trigger] found@[k]) < blocks@.len()
                        && blocks@[found@[k] as int].key == terrain_key(k),
            decreases 10 - which,
        {
            match index_of(blocks, terrain_key_name(which)) {
                None => {
                    proof {
                        assert forall|earlier: int| 0 <= earlier < which implies usable_key(
                            blocks@,
                            terrain_key(earlier),
                        ) by {
                            assert(blocks@[found@[earlier] as int].key == terrain_key(earlier));
                        }
                    }
                    return Err(which);
                },
                Some(index) => {
                    found[which] = index;
                },
            }
            which = which + 1;
        }
        let terrain = TerrainBlocks {
            air: found[0],
            dirt: found[1],
            grass: found[2],
            stone: found[3],
            bedrock: found[4],
            ores: [found[5], found[6], found[7], found[8], found[9]],
        };
        proof {
            assert forall|w: int| 0 <= w < 10 implies usable_key(blocks@, terrain_key(w)) by {
                assert(blocks@[found@[w] as int].key == terrain_key(w));
            }
            assert forall|ore: int| 0 <= ore < 5 implies blocks@[(
            #[trigger] terrain.ores@[ore]) as int].key == terrain_key(5 + ore) by {
                assert(terrain.ores@[ore] == found@[5 + ore]);
            }
        }
        Ok(terrain)
    }
}

/// What was drawn for one column of a chunk: how high the terrain stands, and for each of
/// its layers whether it is stone, whether a cave runs through it and which ores were hit;
/// and for the lowest layers whether bedrock lies there.
pub struct ColumnRolls {
    pub height: usize,
    pub stone: Vec<bool>,
    pub cave: Vec<bool>,
    pub ores: Vec<[bool; 5]>,
    pub bedrock: [bool; 3],
}

impl ColumnRolls {
    /// The terrain fits the chunk, and something was drawn for each of its layers.
    pub open spec fn wf(&self) -> bool {
        &&& self.height <= CHUNK_HEIGHT
        &&& self.stone@.len() == self.height
        &&& self.cave@.len() == self.height
        &&& self.ores@.len() == self.height
    }
}

/// The ore that stands where `hits` were drawn: the last of the first `n` kinds that was
/// hit, or nothing where none was.
pub open spec fn ore_choice(ores: Seq<u16>, hits: Seq<bool>, n: int) -> Option<u16>
    decreases n,
{
    if n <= 0 {
        None
    } else if hits[n - 1] {
        Some(ores[n - 1])
    } else {
        ore_choice(ores, hits, n - 1)
    }
}

/// The block type of layer `y` of a column. Above the terrain is air. The terrain is
/// stone where stone was drawn, else grass on top and dirt below. A cave leaves air. Stone
/// gives way to the ore that was hit. Bedrock, where it was drawn, lies over all of that.
pub open spec fn column_block(blocks: TerrainBlocks, rolls: ColumnRolls, y: int) -> u16 {
    let base = if y >= rolls.height {
        blocks.air
    } else if rolls.stone@[y] {
        blocks.stone
    } else if y == rolls.height - 1 {
        blocks.grass
    } else {
        blocks.dirt
    };
    let carved = if y < rolls.height && GENERATE_CAVES && rolls.cave@[y] {
        blocks.air
    } else {
        base
    };
    let mined = if y < rolls.height && carved == blocks.stone {
        match ore_choice(blocks.ores@, rolls.ores@[y]@, ORE_KINDS as int) {
            Some(ore) => ore,
            None => carved,
        }
    } else {
        carved
    };
    if y < MAX_BEDROCK_HEIGHT && rolls.bedrock@[y] {
        blocks.bedrock
    } else {
        mined
    }
}

/// The ore that stands where `hits` were drawn.
fn choose_ore(ores: &[u16; 5], hits: &[bool; 5]) -> (ore: Option<u16>)
    ensures
        ore == ore_choice(ores@, hits@, ORE_KINDS as int),
{
    let mut ore: Option<u16> = None;
    let mut kind: usize = 0;
    while kind < ORE_KINDS
        invariant
            kind <= ORE_KINDS,
            ore == ore_choice(ores@, hits@, kind as int),
        decreases ORE_KINDS - kind,
    {
        if hits[kind] {
            ore = Some(ores[kind]);
        }
        kind = kind + 1;
    }
    ore
}

/// Builds the column `(x, z)` of a chunk from what was drawn for it, and leaves the other
/// columns as they are.
pub fn fill_column(
    chunk: &mut ChunkData,
    x: usize,
    z: usize,
    rolls: &ColumnRolls,
    blocks: &TerrainBlocks,
)
    requires
        old(chunk).wf(),
        rolls.wf(),
        x < 16,
        z < 16,
    ensures
        final(chunk).wf(),
        forall|y: int|
            0 <= y < CHUNK_HEIGHT as int ==> (#[trigger] final(chunk).block_at(
                x as int,
                y,
                z as int,
            )).block_type == column_block(*blocks, *rolls, y),
        forall|ox: int, y: int, oz: int|
            in_chunk(ox, y, oz) && (ox != x || oz != z) ==> #[trigger] final(chunk).block_at(
                ox,
                y,
                oz,
            ) == old(chunk).block_at(ox, y, oz),
{
    let ghost before = chunk@;
    let mut y: usize = 0;
    while y < CHUNK_HEIGHT
        invariant
            y <= CHUNK_HEIGHT,
            chunk.wf(),
            rolls.wf(),
            x < 16,
            z < 16,
            forall|k: int|
                0 <= k < y as int ==> (#[trigger] chunk.block_at(x as int, k, z as int)).block_type
                    == column_block(*blocks, *rolls, k),
            before.len() == chunk@.len(),
            forall|i: int|
                0 <= i < before.len() && !(i / 4096 == x && i % 16 == z) ==> #[trigger] chunk@[i]
                    == before[i],
        decreases CHUNK_HEIGHT - y,
    {
        let mut block_type = if y >= rolls.height {
            blocks.air
        } else if rolls.stone[y] {
            blocks.stone
        } else if y == rolls.height - 1 {
            blocks.grass
        } else {
            blocks.dirt
        };
        if y < rolls.height && GENERATE_CAVES && rolls.cave[y] {
            block_type = blocks.air;
        }
        if y < rolls.height && block_type == blocks.stone {
            match choose_ore(&blocks.ores, &rolls.ores[y]) {
                Some(ore) => {
                    block_type = ore;
                },
                None => {},
            }
        }
        if y < MAX_BEDROCK_HEIGHT && rolls.bedrock[y] {
            block_type = blocks.bedrock;
        }
        let ghost held = *chunk;
        chunk.set(x, y, z, Block { block_type });
        proof {
            lemma_linear_index(x as int, y as int, z as int);
            assert forall|i: int|
                0 <= i < before.len() && !(i / 4096 == x && i % 16 == z) implies #[trigger] chunk@[i]
                == before[i] by {
                assert(chunk@[i] == held@[i]);
            }
            assert forall|k: int| 0 <= k < y as int + 1 implies (#[trigger] chunk.block_at(
                x as int,
                k,
                z as int,
            )).block_type == column_block(*blocks, *rolls, k) by {
                lemma_linear_index(x as int, k, z as int);
                if k < y {
                    assert(held.block_at(x as int, k, z as int) == chunk.block_at(
                        x as int,
                        k,
                        z as int,
                    ));
                }
            }
        }
        y = y + 1;
    }
    proof {
        assert forall|ox: int, oy: int, oz: int|
            in_chunk(ox, oy, oz) && (ox != x || oz != z) implies #[trigger] chunk.block_at(
            ox,
            oy,
            oz,
        ) == before[linear_index(ox, oy, oz)] by {
            lemma_linear_index(ox, oy, oz);
        }
    }
}

} // verus!
