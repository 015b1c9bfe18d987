use vstd::prelude::*;
use crate::blocks::{metadata_views, BlockMetadata, BlockMetadataView, KeyIndex};

verus! {

/// How far the client is with its assets.
#[derive(Debug, Clone, Copy, PartialEq, Eq, Hash, Structural)]
pub enum AppState {
    LoadingAssets,
    CreatingStuff,
    Finished,
}

/// The views of a list of strings.
pub open spec fn string_views(strings: Seq<String>) -> Seq<Seq<char>> {
    Seq::new(strings.len(), |i: int| strings[i]@)
}

/// The texture names of the block types `types`, one block type after another.
pub open spec fn all_texture_names(types: Seq<BlockMetadataView>) -> Seq<Seq<char>>
    decreases types.len(),
{
    if types.len() == 0 {
        Seq::empty()
    } else {
        all_texture_names(types.drop_last()) + types.last().textures
    }
}

/// Those of the first `n` of `names` that `known` does not hold, each once, in the order
/// in which they first occur.
pub open spec fn unknown_names(names: Seq<Seq<char>>, known: Map<Seq<char>, usize>, n: int) -> Seq<
    Seq<char>,
>
    decreases n,
{
    if n <= 0 {
        Seq::empty()
    } else {
        let earlier = unknown_names(names, known, n - 1);
        if known.contains_key(names[n - 1]) || earlier.contains(names[n - 1]) {
            earlier
        } else {
            earlier.push(names[n - 1])
        }
    }
}

/// Where each texture stands in the atlas, by the texture's name.
pub struct BlockTextureIndexMap(pub KeyIndex);

impl View for BlockTextureIndexMap {
    type V = Map<Seq<char>, usize>;

    open spec fn view(&self) -> Map<Seq<char>, usize> {
        self.0@
    }
}

impl Default for BlockTextureIndexMap {
    fn default() -> (map: Self)
        ensures
            map@ == Map::<Seq<char>, usize>::empty(),
    {
        BlockTextureIndexMap(KeyIndex::new())
    }
}

impl BlockTextureIndexMap {
    /// Notes that the texture `name` stands at place `index` of the atlas.
    pub fn insert(&mut self, name: String, index: usize)
        ensures
            final(self)@ == old(self)@.insert(name@, index),
    {
        self.0.insert(name, index);
    }

    /// The place of the texture `name` in the atlas.
    pub fn get(&self, name: &str) -> (index: Option<usize>)
        ensures
            index == (if self@.contains_key(name@) {
                Some(self@[name@])
            } else {
                None
            }),
    {
        self.0.get(name)
    }

    /// The textures that the block types use and whose place in the atlas is not known
    /// yet: each once, in the order in which they are first used.
    pub fn missing_textures(&self, block_types: &Vec<BlockMetadata>) -> (names: Vec<String>)
        ensures
            string_views(names@) == unknown_names(
                all_texture_names(metadata_views(block_types@)),
                self@,
                all_texture_names(metadata_views(block_types@)).len() as int,
            ),
    {
        let ghost types = metadata_views(block_types@);
        let mut all: Vec<String> = Vec::new();
        let mut b: usize = 0;
        while b < block_types.len()
            invariant
                b <= block_types@.len(),
                types == metadata_views(block_types@),
                string_views(all@) == all_texture_names(types.take(b as int)),
            decreases block_types@.len() - b,
        {
            let block = &block_types[b];
            let ghost before = string_views(all@);
            let mut t: usize = 0;
            while t < block.textures.len()
                invariant
                    t <= block.textures@.len(),
                    b < block_types@.len(),
                    types == metadata_views(block_types@),
                    *block == block_types@[b as int],
                    string_views(all@) == before + types[b as int].textures.take(t as int),
                decreases block.textures@.len() - t,
            {
                let ghost held = string_views(all@);
                let name = block.textures[t].partial().clone();
                all.push(name);
                assert(string_views(all@) =~= held.push(name@));
                t = t + 1;
            }
            assert(types.take(b + 1).drop_last() =~= types.take(b as int));
            b = b + 1;
        }
        assert(types.take(b as int) =~= types);
        let ghost source = string_views(all@);
        let mut names: Vec<String> = Vec::new();
        let mut seen = KeyIndex::new();
        let mut n: usize = 0;
        while n < all.len()
            invariant
                n <= all@.len(),
                source == string_views(all@),
                string_views(names@) == unknown_names(source, self@, n as int),
                forall|name: Seq<char>|
                    seen@.contains_key(name) <==> string_views(names@).contains(name),
            decreases all@.len() - n,
        {
            let name = &all[n];
            let ghost earlier = string_views(names@);
            if !self.0.contains_key(name.as_str()) && !seen.contains_key(name.as_str()) {
                seen.insert(name.clone(), n);
                names.push(name.clone());
                assert forall|other: Seq<char>| seen@.contains_key(other) <==> string_views(
                    names@,
                ).contains(other) by {
                    if string_views(names@).contains(other) {
                        let k = choose|k: int|
                            0 <= k < names@.len() && string_views(names@)[k] == other;
                        if k < earlier.len() {
                            assert(earlier[k] == other);
                        }
                    }
                    if other == name@ {
                        assert(string_views(names@)[earlier.len() as int] == other);
                    } else if earlier.contains(other) {
                        let k = choose|k: int| 0 <= k < earlier.len() && earlier[k] == other;
                        assert(string_views(names@)[k] == other);
                    }
                }
            }
            n = n + 1;
        }
        names
    }
}

} // verus!
