use vstd::prelude::*;
use crate::consts::{CHUNK_HEIGHT, CHUNK_SIZE, CHUNK_VOLUME};
use crate::types::block::Block;

verus! {

/// Place of a chunk on the horizontal grid of chunks.
#[derive(Debug, Clone, Copy, PartialEq, Eq, Hash, Structural)]
pub struct ChunkPosition(pub i64, pub i64);

impl ChunkPosition {
    #[inline]
    pub fn new(x: i64, y: i64) -> (pos: Self)
        ensures
            pos == ChunkPosition(x, y),
    {
        Self(x, y)
    }

    #[inline]
    pub fn x(&self) -> (x: i64)
        ensures
            x == self.0,
    {
        self.0
    }

    #[inline]
    pub fn y(&self) -> (y: i64)
        ensures
            y == self.1,
    {
        self.1
    }

    #[inline]
    pub fn xy(&self) -> (xy: (i64, i64))
        ensures
            xy == (self.0, self.1),
    {
        (self.0, self.1)
    }
}

/// The chunks' entities by position, in a `bevy::utils::HashMap`. Verus does not look into
/// the map: what it holds goes by the name [`chunk_map_entries`], and it is read and
/// changed through the trusted functions below, one for each method of the map that is
/// called.
#[verifier::external_body]
pub struct ChunkMap {
    entries: bevy::utils::HashMap<(i64, i64), u64>,
}

/// What a [`ChunkMap`] holds: for each position that is filed, the entity filed under it.
pub uninterp spec fn chunk_map_entries(map: ChunkMap) -> Map<(i64, i64), u64>;

/// Calls `HashMap::default` of `bevy::utils::HashMap`. Trusted: the new map holds nothing.
#[verifier::external_body]
fn entries_new() -> (fresh: ChunkMap)
    ensures
        (chunk_map_entries(fresh) == Map::<(i64, i64), u64>::empty()),
{
    ChunkMap { entries: bevy::utils::HashMap::default() }
}

/// Calls `HashMap::get` of `bevy::utils::HashMap`. Trusted: it gives the value that is held
/// under the key, and nothing where none is.
#[verifier::external_body]
fn entries_get(map: &ChunkMap, key: (i64, i64)) -> (value: Option<u64>)
    ensures
        value == (if chunk_map_entries(*map).contains_key(key) {
            Some(chunk_map_entries(*map)[key])
        } else {
            None
        }),
{
    map.entries.get(&key).copied()
}

/// Calls `HashMap::insert` of `bevy::utils::HashMap`. Trusted: afterwards the map holds the
/// value under the key, in place of what it held there, and all else as before.
#[verifier::external_body]
fn entries_insert(map: &mut ChunkMap, key: (i64, i64), value: u64)
    ensures
        chunk_map_entries(*final(map)) == chunk_map_entries(*old(map)).insert(key, value),
{
    map.entries.insert(key, value);
}

/// Calls `HashMap::remove` of `bevy::utils::HashMap`. Trusted: afterwards the map holds
/// nothing under the key, and all else as before.
#[verifier::external_body]
fn entries_remove(map: &mut ChunkMap, key: (i64, i64))
    ensures
        chunk_map_entries(*final(map)) == chunk_map_entries(*old(map)).remove(key),
{
    map.entries.remove(&key);
}

/// Calls `HashMap::contains_key` of `bevy::utils::HashMap`. Trusted: it says whether the
/// map holds something under the key.
#[verifier::external_body]
fn entries_contains_key(map: &ChunkMap, key: (i64, i64)) -> (found: bool)
    ensures
        found == chunk_map_entries(*map).contains_key(key),
{
    map.entries.contains_key(&key)
}

impl View for ChunkMap {
    type V = Map<ChunkPosition, u64>;

    /// For each position that is filed, the entity filed under it.
    open spec fn view(&self) -> Map<ChunkPosition, u64> {
        Map::new(
            |pos: ChunkPosition| chunk_map_entries(*self).contains_key((pos.0, pos.1)),
            |pos: ChunkPosition| chunk_map_entries(*self)[(pos.0, pos.1)],
        )
    }
}

impl Default for ChunkMap {
    fn default() -> (map: Self)
        ensures
            map@ == Map::<ChunkPosition, u64>::empty(),
    {
        ChunkMap::new()
    }
}

impl ChunkMap {
    /// A map without entries.
    pub fn new() -> (map: Self)
        ensures
            map@ == Map::<ChunkPosition, u64>::empty(),
    {
        let map = entries_new();
        assert(map@ =~= Map::<ChunkPosition, u64>::empty());
        map
    }

    /// The entity filed under `pos`, if there is one.
    #[inline]
    pub fn get(&self, pos: ChunkPosition) -> (entity: Option<u64>)
        ensures
            entity == (if self@.contains_key(pos) {
                Some(self@[pos])
            } else {
                None
            }),
    {
        entries_get(self, (pos.0, pos.1))
    }

    /// Files `entity` under `pos`, in place of what was filed there.
    #[inline]
    pub fn insert(&mut self, pos: ChunkPosition, entity: u64)
        ensures
            final(self)@ == old(self)@.insert(pos, entity),
    {
        entries_insert(self, (pos.0, pos.1), entity);
        assert(self@ =~= old(self)@.insert(pos, entity));
    }

    /// Takes out what is filed under `pos`, if anything.
    #[inline]
    pub fn remove(&mut self, pos: ChunkPosition)
        ensures
            final(self)@ == old(self)@.remove(pos),
    {
        entries_remove(self, (pos.0, pos.1));
        assert(self@ =~= old(self)@.remove(pos));
    }

    /// Whether anything is filed under `pos`.
    #[inline]
    pub fn contains(&self, pos: ChunkPosition) -> (found: bool)
        ensures
            found == self@.contains_key(pos),
    {
        entries_contains_key(self, (pos.0, pos.1))
    }
}

/// Positions in a `bevy::utils::HashSet`. Verus does not look into the set: what it holds
/// goes by the name [`position_set_members`], and it is read and changed through the
/// trusted functions below, one for each method of the set that is called.
#[verifier::external_body]
pub struct PositionSet {
    members: bevy::utils::HashSet<(i64, i64)>,
}

/// What a [`PositionSet`] holds.
pub uninterp spec fn position_set_members(set: PositionSet) -> Set<(i64, i64)>;

/// Calls `HashSet::default` of `bevy::utils::HashSet`. Trusted: the new set holds nothing.
#[verifier::external_body]
fn members_new() -> (fresh: PositionSet)
    ensures
        (position_set_members(fresh) == Set::<(i64, i64)>::empty()),
{
    PositionSet { members: bevy::utils::HashSet::default() }
}

/// Calls `HashSet::insert` of `bevy::utils::HashSet`. Trusted: afterwards the set holds the
/// position besides what it held before.
#[verifier::external_body]
fn members_insert(set: &mut PositionSet, position: (i64, i64))
    ensures
        position_set_members(*final(set)) == position_set_members(*old(set)).insert(position),
{
    set.members.insert(position);
}

/// Calls `HashSet::contains` of `bevy::utils::HashSet`. Trusted: it says whether the set
/// holds the position.
#[verifier::external_body]
fn members_contains(set: &PositionSet, position: (i64, i64)) -> (found: bool)
    ensures
        found == position_set_members(*set).contains(position),
{
    set.members.contains(&position)
}

impl View for PositionSet {
    type V = Set<ChunkPosition>;

    open spec fn view(&self) -> Set<ChunkPosition> {
        Set::new(|pos: ChunkPosition| position_set_members(*self).contains((pos.0, pos.1)))
    }
}

impl PositionSet {
    /// A set without positions.
    pub fn new() -> (set: Self)
        ensures
            set@ == Set::<ChunkPosition>::empty(),
    {
        let set = members_new();
        assert(set@ =~= Set::<ChunkPosition>::empty());
        set
    }

    /// Puts `pos` into the set.
    pub fn insert(&mut self, pos: ChunkPosition)
        ensures
            final(self)@ == old(self)@.insert(pos),
    {
        members_insert(self, (pos.0, pos.1));
        assert(self@ =~= old(self)@.insert(pos));
    }

    /// Whether `pos` is in the set.
    pub fn contains(&self, pos: ChunkPosition) -> (found: bool)
        ensures
            found == self@.contains(pos),
    {
        members_contains(self, (pos.0, pos.1))
    }
}

/// Where block `(x, y, z)` of a chunk stands in the chunk's flat storage: `x` outermost,
/// then `y`, then `z`.
pub open spec fn linear_index(x: int, y: int, z: int) -> int {
    (x * CHUNK_HEIGHT as int + y) * CHUNK_SIZE as int + z
}

/// The layer (the `y`) of the block at place `i` of the storage order.
pub open spec fn layer_of(i: int) -> int {
    (i / (CHUNK_SIZE as int)) % (CHUNK_HEIGHT as int)
}

/// The block type that the test terrain has in layer `y`: 1 below layer 40, 0 from there up.
pub open spec fn test_block_type(y: int) -> u16 {
    if y < 40 {
        1
    } else {
        0
    }
}

/// Whether `(x, y, z)` lies inside a chunk.
pub open spec fn in_chunk(x: int, y: int, z: int) -> bool {
    0 <= x < CHUNK_SIZE as int && 0 <= y < CHUNK_HEIGHT as int && 0 <= z < CHUNK_SIZE as int
}

/// The blocks of one chunk: a full-height column, 16 by 256 by 16.
pub struct ChunkData {
    blocks: Vec<Block>,
}

impl View for ChunkData {
    type V = Seq<Block>;

    /// The blocks in storage order (see [`linear_index`]).
    closed spec fn view(&self) -> Seq<Block> {
        self.blocks@
    }
}

impl ChunkData {
    /// A chunk holds exactly one block for every place inside it.
    pub open spec fn wf(&self) -> bool {
        self@.len() == CHUNK_VOLUME as nat
    }

    /// The block at `(x, y, z)`.
    pub open spec fn block_at(&self, x: int, y: int, z: int) -> Block {
        self@[linear_index(x, y, z)]
    }

    /// A chunk filled with block type 0.
    pub fn new() -> (chunk: Self)
        ensures
            chunk.wf(),
            forall|i: int| 0 <= i < CHUNK_VOLUME as int ==> (#[trigger] chunk@[i]).block_type == 0,
    {
        let mut blocks: Vec<Block> = Vec::with_capacity(CHUNK_VOLUME);
        let mut i: usize = 0;
        while i < CHUNK_VOLUME
            invariant
                i <= CHUNK_VOLUME,
                blocks@.len() == i as nat,
                forall|k: int| 0 <= k < i as int ==> (#[trigger] blocks@[k]).block_type == 0,
            decreases CHUNK_VOLUME - i,
        {
            blocks.push(Block { block_type: 0 });
            i = i + 1;
        }
        ChunkData { blocks }
    }

    /// A chunk whose lowest 40 layers hold block type 1 and the rest block type 0.
    pub fn new_test() -> (chunk: Self)
        ensures
            chunk.wf(),
            forall|x: int, y: int, z: int|
                in_chunk(x, y, z) ==> (#[trigger] chunk.block_at(x, y, z)).block_type
                    == test_block_type(y),
    {
        let mut blocks: Vec<Block> = Vec::with_capacity(CHUNK_VOLUME);
        let mut i: usize = 0;
        while i < CHUNK_VOLUME
            invariant
                i <= CHUNK_VOLUME,
                blocks@.len() == i as nat,
                forall|k: int|
                    0 <= k < i as int ==> (#[trigger] blocks@[k]).block_type == test_block_type(
                        layer_of(k),
                    ),
            decreases CHUNK_VOLUME - i,
        {
            let y: usize = (i / CHUNK_SIZE) % CHUNK_HEIGHT;
            let block_type: u16 = if y < 40 {
                1
            } else {
                0
            };
            blocks.push(Block { block_type });
            i = i + 1;
        }
        let chunk = ChunkData { blocks };
        assert forall|x: int, y: int, z: int| in_chunk(x, y, z) implies (#[trigger] chunk.block_at(
            x,
            y,
            z,
        )).block_type == test_block_type(y) by {
            lemma_linear_index(x, y, z);
        }
        chunk
    }

    /// The block at `(x, y, z)`.
    pub fn get(&self, x: usize, y: usize, z: usize) -> (block: Block)
        requires
            self.wf(),
            in_chunk(x as int, y as int, z as int),
        ensures
            block == self.block_at(x as int, y as int, z as int),
    {
        proof {
            lemma_linear_index(x as int, y as int, z as int);
        }
        self.blocks[(x * CHUNK_HEIGHT + y) * CHUNK_SIZE + z]
    }

    /// Puts `block` at `(x, y, z)` and leaves every other block as it was.
    pub fn set(&mut self, x: usize, y: usize, z: usize, block: Block)
        requires
            old(self).wf(),
            in_chunk(x as int, y as int, z as int),
        ensures
            final(self).wf(),
            final(self)@ == old(self)@.update(linear_index(x as int, y as int, z as int), block),
    {
        proof {
            lemma_linear_index(x as int, y as int, z as int);
        }
        self.blocks.set((x * CHUNK_HEIGHT + y) * CHUNK_SIZE + z, block);
    }

    /// The block at place `i` of the storage order.
    pub fn get_linear(&self, i: usize) -> (block: Block)
        requires
            self.wf(),
            i < CHUNK_VOLUME,
        ensures
            block == self@[i as int],
    {
        self.blocks[i]
    }

    /// A chunk that holds `blocks` in storage order, if there are as many as a chunk has.
    pub fn from_blocks(blocks: Vec<Block>) -> (chunk: Option<Self>)
        ensures
            blocks@.len() == CHUNK_VOLUME as nat <==> chunk is Some,
            chunk matches Some(c) ==> c.wf() && c@ == blocks@,
    {
        if blocks.len() == CHUNK_VOLUME {
            Some(ChunkData { blocks })
        } else {
            None
        }
    }

}

impl Clone for ChunkData {
    /// A copy of the chunk, block for block.
    fn clone(&self) -> (copy: Self)
        ensures
            copy@ == self@,
    {
        let blocks = self.blocks.clone();
        ChunkData { blocks }
    }
}

/// The storage order is a bijection between places inside a chunk and `0..CHUNK_VOLUME`.
pub proof fn lemma_linear_index(x: int, y: int, z: int)
    requires
        in_chunk(x, y, z),
    ensures
        0 <= linear_index(x, y, z) < CHUNK_VOLUME as int,
        linear_index(x, y, z) % (CHUNK_SIZE as int) == z,
        layer_of(linear_index(x, y, z)) == y,
        linear_index(x, y, z) / 4096 == x,
{
}

} // verus!
