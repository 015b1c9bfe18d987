use vstd::prelude::*;
use vstd::string::StringExecFns;
use crate::types::misc::CubeFace;

verus! {

/// The key that a block description has until it is given one of its own.
pub const INVALID_KEY: &'static str = "__invalid_key__";

/// Bit of [`BlockMetadata::flags`] that marks a block as air.
pub const FLAG_AIR: u16 = 1;

/// Bit of [`BlockMetadata::flags`] that marks a block as solid.
pub const FLAG_SOLID: u16 = 2;

/// Bit of [`BlockMetadata::flags`] that marks a block as liquid.
pub const FLAG_LIQUID: u16 = 4;

/// The properties a block type can be flagged with.
#[derive(Debug, Clone, Copy, PartialEq, Eq, Structural)]
#[non_exhaustive]
pub enum BlockFlags {
    FlagAir,
    FlagSolid,
    FlagLiquid,
}

impl BlockFlags {
    /// The bit that stands for the flag in [`BlockMetadata::flags`].
    pub open spec fn spec_bits(self) -> u16 {
        match self {
            BlockFlags::FlagAir => FLAG_AIR,
            BlockFlags::FlagSolid => FLAG_SOLID,
            BlockFlags::FlagLiquid => FLAG_LIQUID,
        }
    }

    /// The bit that stands for the flag in [`BlockMetadata::flags`].
    pub fn bits(self) -> (bits: u16)
        ensures
            bits == self.spec_bits(),
    {
        match self {
            BlockFlags::FlagAir => FLAG_AIR,
            BlockFlags::FlagSolid => FLAG_SOLID,
            BlockFlags::FlagLiquid => FLAG_LIQUID,
        }
    }
}

/// The geometry a block type is drawn with.
#[derive(Debug, Clone, Copy, Hash, PartialEq, Eq, Structural)]
#[non_exhaustive]
pub enum BlockShape {
    /// Nothing is drawn.
    Empty,
    Cube,
    Cross,
}

impl Default for BlockShape {
    fn default() -> (shape: Self)
        ensures
            shape == BlockShape::Cube,
    {
        Self::Cube
    }
}

/// The name of a texture, without directory and extension.
#[derive(Debug)]
pub struct TexturePath(String);

impl View for TexturePath {
    type V = Seq<char>;

    closed spec fn view(&self) -> Seq<char> {
        self.0@
    }
}

impl Clone for TexturePath {
    fn clone(&self) -> (copy: Self)
        ensures
            copy@ == self@,
    {
        TexturePath(self.0.clone())
    }
}

impl TexturePath {
    /// The texture with the name `name`.
    pub fn new(name: &str) -> (path: Self)
        ensures
            path@ == name@,
    {
        TexturePath(name.to_owned())
    }

    /// The texture's name.
    pub fn partial(&self) -> (name: &String)
        ensures
            name@ == self@,
    {
        &self.0
    }

    /// Where the texture's file lies: the name between `textures/` and `.png`.
    pub fn full(&self) -> (path: String)
        ensures
            path@ == "textures/"@ + self@ + ".png"@,
    {
        let mut path = "textures/".to_owned();
        path.append(self.0.as_str());
        path.append(".png");
        path
    }
}

/// What a block type is, as plain values.
pub struct BlockMetadataView {
    pub index: Option<usize>,
    pub key: Seq<char>,
    pub name: Seq<char>,
    pub textures: Seq<Seq<char>>,
    pub face_textures: Seq<usize>,
    pub optimize_sides: Seq<bool>,
    pub flags: u16,
    pub shape: BlockShape,
}

impl BlockMetadataView {
    /// The same block type, filed at place `index` of a registry.
    pub open spec fn with_index(self, index: usize) -> BlockMetadataView {
        BlockMetadataView { index: Some(index), ..self }
    }

    pub open spec fn is_air(self) -> bool {
        self.flags & FLAG_AIR != 0
    }

    pub open spec fn is_solid(self) -> bool {
        self.flags & FLAG_SOLID != 0
    }

    pub open spec fn is_liquid(self) -> bool {
        self.flags & FLAG_LIQUID != 0
    }
}

/// The names of a list of textures.
pub open spec fn texture_names(textures: Seq<TexturePath>) -> Seq<Seq<char>> {
    Seq::new(textures.len(), |i: int| textures[i]@)
}

/// A block type: how it is called, what it looks like and how it behaves.
#[derive(Debug)]
pub struct BlockMetadata {
    /// Place in the registry; set when the block type is registered.
    pub index: Option<usize>,
    pub key: String,
    pub name: String,
    pub textures: Vec<TexturePath>,
    /// For each face, in the order of [`CubeFace`], a place in `textures`.
    pub face_textures: [usize; 6],
    pub optimize_sides: [bool; 6],
    pub flags: u16,
    pub shape: BlockShape,
}

impl View for BlockMetadata {
    type V = BlockMetadataView;

    open spec fn view(&self) -> BlockMetadataView {
        BlockMetadataView {
            index: self.index,
            key: self.key@,
            name: self.name@,
            textures: texture_names(self.textures@),
            face_textures: self.face_textures@,
            optimize_sides: self.optimize_sides@,
            flags: self.flags,
            shape: self.shape,
        }
    }
}

/// The description that [`BlockMetadata::default`] gives: a solid cube without textures,
/// not yet named.
pub open spec fn default_metadata() -> BlockMetadataView {
    BlockMetadataView {
        index: None,
        key: INVALID_KEY@,
        name: "block"@,
        textures: Seq::empty(),
        face_textures: seq![0usize, 0usize, 0usize, 0usize, 0usize, 0usize],
        optimize_sides: seq![true, true, true, true, true, true],
        flags: FLAG_SOLID,
        shape: BlockShape::Cube,
    }
}

impl Default for BlockMetadata {
    fn default() -> (meta: Self)
        ensures
            meta@ == default_metadata(),
    {
        let meta = Self {
            index: None,
            key: INVALID_KEY.to_owned(),
            name: "block".to_owned(),
            textures: Vec::new(),
            face_textures: [0, 0, 0, 0, 0, 0],
            optimize_sides: [true, true, true, true, true, true],
            flags: FLAG_SOLID,
            shape: BlockShape::Cube,
        };
        assert(meta@.textures =~= Seq::empty());
        meta
    }
}

impl Clone for BlockMetadata {
    fn clone(&self) -> (copy: Self)
        ensures
            copy@ == self@,
    {
        let mut textures: Vec<TexturePath> = Vec::with_capacity(self.textures.len());
        let mut i: usize = 0;
        while i < self.textures.len()
            invariant
                i <= self.textures@.len(),
                textures@.len() == i as nat,
                forall|k: int| 0 <= k < i as int ==> textures@[k]@ == self.textures@[k]@,
            decreases self.textures@.len() - i,
        {
            textures.push(self.textures[i].clone());
            i = i + 1;
        }
        let copy = Self {
            index: self.index,
            key: self.key.clone(),
            name: self.name.clone(),
            textures,
            face_textures: self.face_textures,
            optimize_sides: self.optimize_sides,
            flags: self.flags,
            shape: self.shape,
        };
        assert(copy@.textures =~= self@.textures);
        copy
    }
}

impl BlockMetadata {
    pub fn is_air(&self) -> (air: bool)
        ensures
            air == self@.is_air(),
    {
        (self.flags & FLAG_AIR) > 0
    }

    pub fn is_solid(&self) -> (solid: bool)
        ensures
            solid == self@.is_solid(),
    {
        (self.flags & FLAG_SOLID) > 0
    }

    pub fn is_liquid(&self) -> (liquid: bool)
        ensures
            liquid == self@.is_liquid(),
    {
        (self.flags & FLAG_LIQUID) > 0
    }
}

/// Why a block type was not registered.
#[derive(Debug, Clone, Copy, PartialEq, Eq, Structural)]
pub enum RegistryError {
    /// The key is empty or is [`INVALID_KEY`].
    InvalidKey,
    /// A block type with the same key is registered already.
    DuplicateKey,
    /// A face names a texture that the block type does not list.
    InvalidTextureIndex,
}

/// A key is valid when it is not empty and not the placeholder.
pub open spec fn key_is_valid(key: Seq<char>) -> bool {
    key.len() > 0 && key != INVALID_KEY@
}

/// Whether one of `types` has the key `key`.
pub open spec fn key_taken(types: Seq<BlockMetadataView>, key: Seq<char>) -> bool {
    exists|i: int| 0 <= i < types.len() && (#[trigger] types[i]).key == key
}

/// Whether every face of `meta` names one of the textures that `meta` lists.
pub open spec fn textures_in_range(meta: BlockMetadataView) -> bool {
    forall|f: int| 0 <= f < 6 ==> (#[trigger] meta.face_textures[f]) < meta.textures.len()
}

/// Why `meta` cannot join `types`, if it cannot: the first that applies of an invalid key, a
/// key that is taken, and a face texture out of range.
pub open spec fn rejection(types: Seq<BlockMetadataView>, meta: BlockMetadataView) -> Option<
    RegistryError,
> {
    if !key_is_valid(meta.key) {
        Some(RegistryError::InvalidKey)
    } else if key_taken(types, meta.key) {
        Some(RegistryError::DuplicateKey)
    } else if !textures_in_range(meta) {
        Some(RegistryError::InvalidTextureIndex)
    } else {
        None
    }
}

/// What holds of the block types of every registry: each knows its place, each has a valid key
/// of its own, and each names only textures that it lists.
pub open spec fn registry_wf(types: Seq<BlockMetadataView>) -> bool {
    &&& forall|i: int|
        0 <= i < types.len() ==> {
            &&& (#[trigger] types[i]).index == Some(i as usize)
            &&& key_is_valid(types[i].key)
            &&& textures_in_range(types[i])
        }
    &&& forall|i: int, j: int|
        0 <= i < types.len() && 0 <= j < types.len() && i != j ==> (#[trigger] types[i]).key != (
        #[trigger] types[j]).key
}

/// The descriptions of a list of block types.
pub open spec fn metadata_views(types: Seq<BlockMetadata>) -> Seq<BlockMetadataView> {
    Seq::new(types.len(), |i: int| types[i]@)
}

/// What registering `blocks` one after another makes of `types`: the block types after the
/// last one that was taken, and the reason why the next one was refused, if one was.
pub open spec fn register_all(types: Seq<BlockMetadataView>, blocks: Seq<BlockMetadataView>) -> (
    Seq<BlockMetadataView>,
    Option<RegistryError>,
)
    decreases blocks.len(),
{
    if blocks.len() == 0 {
        (types, None)
    } else {
        match rejection(types, blocks[0]) {
            Some(e) => (types, Some(e)),
            None => register_all(
                types.push(blocks[0].with_index(types.len() as usize)),
                blocks.skip(1),
            ),
        }
    }
}

/// Numbers by name, in a `bevy::utils::HashMap`. Verus does not look into the map: what it
/// holds goes by the name [`key_index_entries`], and it is read and changed through the
/// trusted functions below, one for each method of the map that is called.
#[verifier::external_body]
pub struct KeyIndex {
    entries: bevy::utils::HashMap<String, usize>,
}

/// What a [`KeyIndex`] holds: for each name that is filed, the number filed under it.
pub uninterp spec fn key_index_entries(index: KeyIndex) -> Map<Seq<char>, usize>;

/// Calls `HashMap::default` of `bevy::utils::HashMap`. Trusted: the new map holds nothing.
#[verifier::external_body]
fn index_new() -> (fresh: KeyIndex)
    ensures
        (key_index_entries(fresh) == Map::<Seq<char>, usize>::empty()),
{
    KeyIndex { entries: bevy::utils::HashMap::default() }
}

/// Calls `HashMap::get` of `bevy::utils::HashMap`. Trusted: it gives the number that is
/// held under the name, and nothing where none is.
#[verifier::external_body]
fn index_get(index: &KeyIndex, key: &str) -> (value: Option<usize>)
    ensures
        value == (if key_index_entries(*index).contains_key(key@) {
            Some(key_index_entries(*index)[key@])
        } else {
            None
        }),
{
    index.entries.get(key).copied()
}

/// Calls `HashMap::insert` of `bevy::utils::HashMap`. Trusted: afterwards the map holds the
/// number under the name, in place of what it held there, and all else as before.
#[verifier::external_body]
fn index_insert(index: &mut KeyIndex, key: String, value: usize)
    ensures
        key_index_entries(*final(index)) == key_index_entries(*old(index)).insert(key@, value),
{
    index.entries.insert(key, value);
}

/// Calls `HashMap::contains_key` of `bevy::utils::HashMap`. Trusted: it says whether the
/// map holds something under the name.
#[verifier::external_body]
fn index_contains_key(index: &KeyIndex, key: &str) -> (found: bool)
    ensures
        found == key_index_entries(*index).contains_key(key@),
{
    index.entries.contains_key(key)
}

impl View for KeyIndex {
    type V = Map<Seq<char>, usize>;

    open spec fn view(&self) -> Map<Seq<char>, usize> {
        key_index_entries(*self)
    }
}

impl KeyIndex {
    /// An index without entries.
    pub fn new() -> (index: Self)
        ensures
            index@ == Map::<Seq<char>, usize>::empty(),
    {
        index_new()
    }

    /// The number filed under `key`, if there is one.
    pub fn get(&self, key: &str) -> (value: Option<usize>)
        ensures
            value == (if self@.contains_key(key@) {
                Some(self@[key@])
            } else {
                None
            }),
    {
        index_get(self, key)
    }

    /// Files `value` under `key`, in place of what was filed there.
    pub fn insert(&mut self, key: String, value: usize)
        ensures
            final(self)@ == old(self)@.insert(key@, value),
    {
        index_insert(self, key, value);
    }

    /// Whether anything is filed under `key`.
    pub fn contains_key(&self, key: &str) -> (found: bool)
        ensures
            found == self@.contains_key(key@),
    {
        index_contains_key(self, key)
    }
}

/// The block types of a world, each under a number and under its key.
pub struct BlockTypeManager {
    block_types: Vec<BlockMetadata>,
    block_map: KeyIndex,
}

impl View for BlockTypeManager {
    type V = Seq<BlockMetadataView>;

    /// The registered block types, in the order of their numbers.
    closed spec fn view(&self) -> Seq<BlockMetadataView> {
        metadata_views(self.block_types@)
    }
}

impl Default for BlockTypeManager {
    fn default() -> (registry: Self)
        ensures
            registry.wf(),
            registry@ == Seq::<BlockMetadataView>::empty(),
    {
        BlockTypeManager::new()
    }
}

impl BlockTypeManager {
    /// The index by key holds exactly the registered block types.
    pub closed spec fn index_consistent(&self) -> bool {
        &&& forall|i: int|
            0 <= i < self.block_types@.len() ==> {
                &&& self.block_map@.contains_key((#[trigger] self.block_types@[i]).key@)
                &&& self.block_map@[self.block_types@[i].key@] == i
            }
        &&& forall|key: Seq<char>| #[trigger]
            self.block_map@.contains_key(key) ==> {
                &&& self.block_map@[key] < self.block_types@.len()
                &&& self.block_types@[self.block_map@[key] as int].key@ == key
            }
    }

    pub open spec fn wf(&self) -> bool {
        &&& self.index_consistent()
        &&& registry_wf(self@)
    }

    /// A registry without block types.
    pub fn new() -> (registry: Self)
        ensures
            registry.wf(),
            registry@ == Seq::<BlockMetadataView>::empty(),
    {
        let registry = BlockTypeManager { block_types: Vec::new(), block_map: KeyIndex::new() };
        registry
    }

    /// Registers block types one after another, up to the first that is refused.
    pub fn register_multiple<const SIZE: usize>(&mut self, blocks: [BlockMetadata; SIZE]) -> (result:
        Result<(), RegistryError>)
        requires
            old(self).wf(),
        ensures
            final(self).wf(),
            final(self)@ == register_all(old(self)@, metadata_views(blocks@)).0,
            match result {
                Ok(()) => register_all(old(self)@, metadata_views(blocks@)).1 is None,
                Err(e) => register_all(old(self)@, metadata_views(blocks@)).1 == Some(e),
            },
    {
        let mut i: usize = 0;
        assert(metadata_views(blocks@).skip(0) =~= metadata_views(blocks@));
        while i < SIZE
            invariant
                i <= SIZE,
                blocks@.len() == SIZE,
                self.wf(),
                register_all(old(self)@, metadata_views(blocks@)) == register_all(
                    self@,
                    metadata_views(blocks@).skip(i as int),
                ),
            decreases SIZE - i,
        {
            let ghost rest = metadata_views(blocks@).skip(i as int);
            assert(rest.skip(1) =~= metadata_views(blocks@).skip(i + 1));
            match self.register(blocks[i].clone()) {
                Ok(_) => {},
                Err(e) => {
                    return Err(e);
                },
            }
            i = i + 1;
        }
        Ok(())
    }

    /// Registers block types one after another, up to the first that is refused.
    pub fn register_multiple_vec(&mut self, blocks: Vec<BlockMetadata>) -> (result: Result<
        (),
        RegistryError,
    >)
        requires
            old(self).wf(),
        ensures
            final(self).wf(),
            final(self)@ == register_all(old(self)@, metadata_views(blocks@)).0,
            match result {
                Ok(()) => register_all(old(self)@, metadata_views(blocks@)).1 is None,
                Err(e) => register_all(old(self)@, metadata_views(blocks@)).1 == Some(e),
            },
    {
        let mut pending = blocks;
        while pending.len() > 0
            invariant
                self.wf(),
                register_all(old(self)@, metadata_views(blocks@)) == register_all(
                    self@,
                    metadata_views(pending@),
                ),
            decreases pending@.len(),
        {
            let ghost rest = metadata_views(pending@);
            let block = pending.remove(0);
            assert(rest.skip(1) =~= metadata_views(pending@));
            match self.register(block) {
                Ok(_) => {},
                Err(e) => {
                    return Err(e);
                },
            }
        }
        Ok(())
    }

    /// Registers a block type under the next free number, which is returned. A block type
    /// with an empty or placeholder key, with a key that is taken, or with a face texture
    /// that it does not list is refused, and the registry stays as it was.
    #[verifier::loop_isolation(false)]
    pub fn register(&mut self, block: BlockMetadata) -> (result: Result<usize, RegistryError>)
        requires
            old(self).wf(),
        ensures
            final(self).wf(),
            match result {
                Ok(index) => {
                    &&& rejection(old(self)@, block@) is None
                    &&& index == old(self)@.len()
                    &&& final(self)@ == old(self)@.push(block@.with_index(index))
                },
                Err(e) => {
                    &&& rejection(old(self)@, block@) == Some(e)
                    &&& final(self)@ == old(self)@
                },
            },
    {
        let mut block = block;
        let ghost given = block@;
        let ghost before = self@;
        if block.key.as_str().is_empty() || block.key == INVALID_KEY.to_owned() {
            return Err(RegistryError::InvalidKey);
        }
        if self.block_map.contains_key(block.key.as_str()) {
            proof {
                let at = self.block_map@[block.key@] as int;
                assert(self@[at].key == block.key@);
            }
            return Err(RegistryError::DuplicateKey);
        }
        assert(!key_taken(self@, block@.key));
        let mut face: usize = 0;
        while face < 6
            invariant
                face <= 6,
                block@ == given,
                forall|f: int|
                    0 <= f < face as int ==> (#[trigger] given.face_textures[f])
                        < given.textures.len(),
            decreases 6 - face,
        {
            if block.face_textures[face] >= block.textures.len() {
                return Err(RegistryError::InvalidTextureIndex);
            }
            face = face + 1;
        }
        let index = self.block_types.len();
        block.index = Some(index);
        self.block_map.insert(block.key.clone(), index);
        self.block_types.push(block);
        assert(self@ =~= before.push(given.with_index(index)));
        assert(registry_wf(self@)) by {
            assert forall|i: int, j: int|
                0 <= i < self@.len() && 0 <= j < self@.len() && i != j implies (
            #[trigger] self@[i]).key != (#[trigger] self@[j]).key by {
                if i == index as int {
                    assert(before[j].key != given.key);
                } else if j == index as int {
                    assert(before[i].key != given.key);
                }
            }
        }
        Ok(index)
    }

    /// The block type with the number `index`.
    pub fn get_by_index(&self, index: usize) -> (found: Option<&BlockMetadata>)
        requires
            self.wf(),
        ensures
            match found {
                Some(meta) => index < self@.len() && meta@ == self@[index as int],
                None => index >= self@.len(),
            },
    {
        if index < self.block_types.len() {
            Some(&self.block_types[index])
        } else {
            None
        }
    }

    /// The block type with the key `key`.
    pub fn get_by_key(&self, key: &str) -> (found: Option<&BlockMetadata>)
        requires
            self.wf(),
        ensures
            match found {
                Some(meta) => {
                    &&& meta@.key == key@
                    &&& meta@.index matches Some(i)
                    &&& i < self@.len()
                    &&& self@[i as int] == meta@
                },
                None => !key_taken(self@, key@),
            },
    {
        match self.block_map.get(key) {
            Some(index) => {
                let meta = &self.block_types[index];
                assert(meta@ == self@[index as int]);
                Some(meta)
            },
            None => {
                assert(!key_taken(self@, key@));
                None
            },
        }
    }

    /// How many block types are registered.
    pub fn amount(&self) -> (count: usize)
        ensures
            count == self@.len(),
    {
        self.block_types.len()
    }

    /// The registered block types, in the order of their numbers.
    pub fn block_types(&self) -> (types: &Vec<BlockMetadata>)
        ensures
            metadata_views(types@) == self@,
    {
        &self.block_types
    }
}

/// A block type that names a texture that it does not list is never registered; so is one
/// that lists no textures at all.
pub proof fn lemma_bad_face_texture_is_rejected(
    types: Seq<BlockMetadataView>,
    meta: BlockMetadataView,
    face: int,
)
    requires
        0 <= face < 6,
        meta.face_textures[face] >= meta.textures.len(),
    ensures
        rejection(types, meta) is Some,
{
}

/// Whatever is registered one after another, the registry keeps its rules, and what was
/// registered before stays where it was.
pub proof fn lemma_register_all_keeps_registry(
    types: Seq<BlockMetadataView>,
    blocks: Seq<BlockMetadataView>,
)
    requires
        registry_wf(types),
        types.len() + blocks.len() <= usize::MAX,
    ensures
        registry_wf(register_all(types, blocks).0),
        types.len() <= register_all(types, blocks).0.len() <= types.len() + blocks.len(),
        forall|i: int| 0 <= i < types.len() ==> register_all(types, blocks).0[i] == types[i],
        register_all(types, blocks).1 is None ==> register_all(types, blocks).0.len()
            == types.len() + blocks.len(),
    decreases blocks.len(),
{
    if blocks.len() > 0 && rejection(types, blocks[0]) is None {
        let next = types.push(blocks[0].with_index(types.len() as usize));
        assert forall|i: int, j: int|
            0 <= i < next.len() && 0 <= j < next.len() && i != j implies (#[trigger] next[i]).key
            != (#[trigger] next[j]).key by {
            if i == types.len() {
                assert(types[j].key != blocks[0].key);
            } else if j == types.len() {
                assert(types[i].key != blocks[0].key);
            }
        }
        lemma_register_all_keeps_registry(next, blocks.skip(1));
        assert forall|i: int| 0 <= i < types.len() implies register_all(types, blocks).0[i]
            == types[i] by {
            assert(register_all(next, blocks.skip(1)).0[i] == next[i]);
        }
    }
}

/// Lays out the textures of the six faces by face: `map` gives for each face the place of its
/// texture. Nothing is returned where a face is given twice.
pub fn side_textures(map: [(CubeFace, usize); 6]) -> (textures: Option<[usize; 6]>)
    ensures
        match textures {
            Some(by_face) => {
                &&& forall|i: int, j: int|
                    0 <= i < j < 6 ==> (#[trigger] map@[i]).0 != (#[trigger] map@[j]).0
                &&& forall|i: int|
                    0 <= i < 6 ==> by_face@[(#[trigger] map@[i]).0.spec_index()] == map@[i].1
            },
            None => exists|i: int, j: int|
                0 <= i < j < 6 && (#[trigger] map@[i]).0 == (#[trigger] map@[j]).0,
        },
{
    let mut by_face: [usize; 6] = [0, 0, 0, 0, 0, 0];
    let mut seen: [bool; 6] = [false, false, false, false, false, false];
    let mut index: usize = 0;
    while index < 6
        invariant
            index <= 6,
            forall|i: int, j: int|
                0 <= i < j < index as int ==> (#[trigger] map@[i]).0 != (#[trigger] map@[j]).0,
            forall|i: int|
                0 <= i < index as int ==> by_face@[(#[trigger] map@[i]).0.spec_index()]
                    == map@[i].1,
            forall|f: int|
                0 <= f < 6 ==> (#[trigger] seen@[f] <==> exists|i: int|
                    0 <= i < index as int && (#[trigger] map@[i]).0.spec_index() == f),
        decreases 6 - index,
    {
        let entry = map[index];
        let key = entry.0.index();
        if seen[key] {
            proof {
                let earlier = choose|i: int|
                    0 <= i < index as int && (#[trigger] map@[i]).0.spec_index() == key as int;
                crate::types::misc::lemma_face_index_round_trip(map@[earlier].0);
                crate::types::misc::lemma_face_index_round_trip(map@[index as int].0);
            }
            return None;
        }
        proof {
            assert forall|i: int| 0 <= i < index as int implies (#[trigger] map@[i]).0
                != map@[index as int].0 by {
                if map@[i].0 == map@[index as int].0 {
                    assert(map@[i].0.spec_index() == key as int);
                }
            }
        }
        seen[key] = true;
        by_face[key] = entry.1;
        index += 1;
        proof {
            assert forall|f: int| 0 <= f < 6 implies (#[trigger] seen@[f] <==> exists|i: int|
                0 <= i < index as int && (#[trigger] map@[i]).0.spec_index() == f) by {
                if f == key as int {
                    assert(map@[index - 1].0.spec_index() == f);
                }
            }
        }
    }
    Some(by_face)
}

/// The block types that every world starts with: air, dirt, grass, stone and bedrock. Air
/// is never drawn; so that its faces name a texture that it lists, it lists that of dirt.
pub open spec fn default_block_views() -> Seq<BlockMetadataView> {
    seq![
        BlockMetadataView {
            key: "air"@,
            textures: seq!["dirt"@],
            flags: FLAG_AIR,
            shape: BlockShape::Empty,
            ..default_metadata()
        },
        BlockMetadataView {
            key: "dirt"@,
            name: "Dirt Block"@,
            textures: seq!["dirt"@],
            ..default_metadata()
        },
        BlockMetadataView {
            key: "grass"@,
            name: "Grass Block"@,
            textures: seq!["grass_block_top"@, "grass_block_side"@, "dirt"@],
            face_textures: seq![0usize, 1usize, 1usize, 1usize, 1usize, 2usize],
            ..default_metadata()
        },
        BlockMetadataView {
            key: "stone"@,
            name: "Stone Block"@,
            textures: seq!["stone"@],
            ..default_metadata()
        },
        BlockMetadataView {
            key: "bedrock"@,
            name: "Bedrock"@,
            textures: seq!["bedrock"@],
            ..default_metadata()
        },
    ]
}

/// A list that holds the one texture `name`.
fn single_texture(name: &str) -> (textures: Vec<TexturePath>)
    ensures
        texture_names(textures@) == seq![name@],
{
    let mut textures: Vec<TexturePath> = Vec::new();
    textures.push(TexturePath::new(name));
    textures
}

/// The block types that every world starts with: air, dirt, grass, stone and bedrock.
pub fn default_blocks() -> (blocks: Vec<BlockMetadata>)
    ensures
        metadata_views(blocks@) == default_block_views(),
{
    let mut air = BlockMetadata::default();
    air.key = "air".to_owned();
    air.textures = single_texture("dirt");
    air.flags = FLAG_AIR;
    air.shape = BlockShape::Empty;

    let mut dirt = BlockMetadata::default();
    dirt.key = "dirt".to_owned();
    dirt.name = "Dirt Block".to_owned();
    dirt.textures = single_texture("dirt");

    let mut grass = BlockMetadata::default();
    grass.key = "grass".to_owned();
    grass.name = "Grass Block".to_owned();
    let mut grass_textures: Vec<TexturePath> = Vec::new();
    grass_textures.push(TexturePath::new("grass_block_top"));
    grass_textures.push(TexturePath::new("grass_block_side"));
    grass_textures.push(TexturePath::new("dirt"));
    assert(texture_names(grass_textures@) =~= seq![
        "grass_block_top"@,
        "grass_block_side"@,
        "dirt"@,
    ]);
    grass.textures = grass_textures;
    let grass_map: [(CubeFace, usize); 6] = [
        (CubeFace::Top, 0),
        (CubeFace::Front, 1),
        (CubeFace::Left, 1),
        (CubeFace::Right, 1),
        (CubeFace::Back, 1),
        (CubeFace::Bottom, 2),
    ];
    let grass_faces = side_textures(grass_map);
    proof {
        assert(grass_map@[5] == (CubeFace::Bottom, 2usize));
    }
    let grass_by_face = grass_faces.unwrap();
    assert(grass_by_face@ =~= seq![0usize, 1usize, 1usize, 1usize, 1usize, 2usize]);
    grass.face_textures = grass_by_face;

    let mut stone = BlockMetadata::default();
    stone.key = "stone".to_owned();
    stone.name = "Stone Block".to_owned();
    stone.textures = single_texture("stone");

    let mut bedrock = BlockMetadata::default();
    bedrock.key = "bedrock".to_owned();
    bedrock.name = "Bedrock".to_owned();
    bedrock.textures = single_texture("bedrock");

    let mut blocks: Vec<BlockMetadata> = Vec::new();
    blocks.push(air);
    blocks.push(dirt);
    blocks.push(grass);
    blocks.push(stone);
    blocks.push(bedrock);
    blocks
}

/// Registers the block types that every world starts with.
pub fn register_blocks(blocks: &mut BlockTypeManager) -> (result: Result<(), RegistryError>)
    requires
        old(blocks).wf(),
    ensures
        final(blocks).wf(),
        final(blocks)@ == register_all(old(blocks)@, default_block_views()).0,
        match result {
            Ok(()) => register_all(old(blocks)@, default_block_views()).1 is None,
            Err(e) => register_all(old(blocks)@, default_block_views()).1 == Some(e),
        },
{
    blocks.register_multiple_vec(default_blocks())
}

/// The block types that every world starts with are taken by an empty registry, in their
/// order: air is number 0, dirt 1, grass 2, stone 3 and bedrock 4.
pub proof fn lemma_default_blocks_register()
    ensures
        register_all(Seq::empty(), default_block_views()).1 is None,
        register_all(Seq::empty(), default_block_views()).0.len() == 5,
        forall|i: int|
            0 <= i < 5 ==> #[trigger] register_all(Seq::empty(), default_block_views()).0[i]
                == default_block_views()[i].with_index(i as usize),
{
    reveal_strlit("__invalid_key__");
    reveal_strlit("air");
    reveal_strlit("dirt");
    reveal_strlit("grass");
    reveal_strlit("stone");
    reveal_strlit("bedrock");
    let blocks = default_block_views();
    assert("grass"@[0] != "stone"@[0]);
    let t0 = Seq::<BlockMetadataView>::empty();
    assert(rejection(t0, blocks[0]) is None) by {
        assert(INVALID_KEY@.len() == 15);
    }
    let t1 = t0.push(blocks[0].with_index(0));
    assert(rejection(t1, blocks[1]) is None) by {
        assert(!key_taken(t1, blocks[1].key)) by {
            assert forall|j: int| 0 <= j < t1.len() implies (#[trigger] t1[j]).key
                != blocks[1].key by {
                assert(t1[j].key == blocks[j].key);
            }
        }
    }
    let t2 = t1.push(blocks[1].with_index(1));
    assert(rejection(t2, blocks[2]) is None) by {
        assert(!key_taken(t2, blocks[2].key)) by {
            assert forall|j: int| 0 <= j < t2.len() implies (#[trigger] t2[j]).key
                != blocks[2].key by {
                assert(t2[j].key == blocks[j].key);
            }
        }
    }
    let t3 = t2.push(blocks[2].with_index(2));
    assert(rejection(t3, blocks[3]) is None) by {
        assert(!key_taken(t3, blocks[3].key)) by {
            assert forall|j: int| 0 <= j < t3.len() implies (#[trigger] t3[j]).key
                != blocks[3].key by {
                assert(t3[j].key == blocks[j].key);
            }
        }
    }
    let t4 = t3.push(blocks[3].with_index(3));
    assert(rejection(t4, blocks[4]) is None) by {
        assert(!key_taken(t4, blocks[4].key)) by {
            assert forall|j: int| 0 <= j < t4.len() implies (#[trigger] t4[j]).key
                != blocks[4].key by {
                assert(t4[j].key == blocks[j].key);
            }
        }
    }
    let t5 = t4.push(blocks[4].with_index(4));
    let b1 = blocks.skip(1);
    let b2 = b1.skip(1);
    let b3 = b2.skip(1);
    let b4 = b3.skip(1);
    let b5 = b4.skip(1);
    assert(register_all(t4, b4) == register_all(t5, b5));
    assert(register_all(t2, b2) == register_all(t3, b3));
    assert(register_all(t0, blocks) == register_all(t1, b1));
}

} // verus!
