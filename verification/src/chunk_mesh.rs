use vstd::prelude::*;
use crate::assets::BlockTextureIndexMap;
use crate::blocks::{metadata_views, BlockMetadata, BlockMetadataView, BlockShape};
use crate::consts::CHUNK_VOLUME;
use crate::mesh_builder::{mesh_of_faces, FaceView, MeshBuilder, MeshData, UvCorner};
use crate::types::block::Block;
use crate::types::chunk::{in_chunk, layer_of, lemma_linear_index, linear_index, ChunkData};
use crate::types::misc::CubeFace;

verus! {

/// What keeps a chunk from being meshed.
#[derive(Debug, Clone, Copy, PartialEq, Eq, Structural)]
pub enum MeshFault {
    /// A block's type is not registered.
    UnknownBlock,
    /// A block that is not air has a shape for which no faces are made.
    UnsupportedShape,
    /// A face of a block names a texture that the block type does not list or that has
    /// no place in the atlas.
    MissingTexture,
}

/// Why a chunk was not meshed: the first block, in storage order, that cannot be meshed.
#[derive(Debug, Clone, Copy, PartialEq, Eq, Structural)]
pub struct MeshError {
    pub fault: MeshFault,
    pub x: usize,
    pub y: usize,
    pub z: usize,
}

/// The `x` of the block at place `i` of the storage order.
pub open spec fn voxel_x(i: int) -> int {
    i / 4096
}

/// The `y` of the block at place `i` of the storage order.
pub open spec fn voxel_y(i: int) -> int {
    layer_of(i)
}

/// The `z` of the block at place `i` of the storage order.
pub open spec fn voxel_z(i: int) -> int {
    i % 16
}

/// Whether `block` is drawn as a cube: its type is registered, is not air and has the
/// shape of a cube. Such a block hides the faces of its neighbours that touch it.
pub open spec fn is_cube(types: Seq<BlockMetadataView>, block: Block) -> bool {
    &&& block.block_type < types.len()
    &&& !types[block.block_type as int].is_air()
    &&& types[block.block_type as int].shape == BlockShape::Cube
}

/// The name of the texture of face number `face` of a block type.
pub open spec fn face_texture_name(meta: BlockMetadataView, face: int) -> Seq<char> {
    meta.textures[meta.face_textures[face] as int]
}

/// Whether face number `face` of a block type names a texture that the block type lists
/// and that has a place in the atlas.
pub open spec fn face_is_textured(
    meta: BlockMetadataView,
    textures: Map<Seq<char>, usize>,
    face: int,
) -> bool {
    meta.face_textures[face] < meta.textures.len() && textures.contains_key(
        face_texture_name(meta, face),
    )
}

/// What keeps `block` from being meshed, if anything does. Air is never at fault.
pub open spec fn block_fault(
    types: Seq<BlockMetadataView>,
    textures: Map<Seq<char>, usize>,
    block: Block,
) -> Option<MeshFault> {
    if block.block_type >= types.len() {
        Some(MeshFault::UnknownBlock)
    } else {
        let meta = types[block.block_type as int];
        if meta.is_air() {
            None
        } else if meta.shape != BlockShape::Cube {
            Some(MeshFault::UnsupportedShape)
        } else if !(forall|face: int| 0 <= face < 6 ==> face_is_textured(meta, textures, face)) {
            Some(MeshFault::MissingTexture)
        } else {
            None
        }
    }
}

/// The first of the first `n` blocks, in storage order, that cannot be meshed.
pub open spec fn first_fault(
    grid: Seq<Block>,
    types: Seq<BlockMetadataView>,
    textures: Map<Seq<char>, usize>,
    n: int,
) -> Option<int>
    decreases n,
{
    if n <= 0 {
        None
    } else {
        match first_fault(grid, types, textures, n - 1) {
            Some(i) => Some(i),
            None => if block_fault(types, textures, grid[n - 1]) is Some {
                Some(n - 1)
            } else {
                None
            },
        }
    }
}

/// The texture corners of the four vertices of a face whose texture stands at place
/// `texture` of the atlas.
pub open spec fn face_uvs(texture: usize) -> Seq<UvCorner> {
    seq![
        UvCorner { texture, u_max: true, v_max: true },
        UvCorner { texture, u_max: true, v_max: false },
        UvCorner { texture, u_max: false, v_max: true },
        UvCorner { texture, u_max: false, v_max: false },
    ]
}

/// Whether the face `face` of the block at place `i` is hidden: the neighbour that it
/// looks at lies inside the chunk and is drawn as a cube. A face at the chunk's border is
/// never hidden.
pub open spec fn neighbor_hides(
    grid: Seq<Block>,
    types: Seq<BlockMetadataView>,
    i: int,
    face: CubeFace,
) -> bool {
    let x = voxel_x(i) + face.spec_offset().0;
    let y = voxel_y(i) + face.spec_offset().1;
    let z = voxel_z(i) + face.spec_offset().2;
    in_chunk(x, y, z) && is_cube(types, grid[linear_index(x, y, z)])
}

/// The face `face` of the block at place `i`, with the texture that the block type gives it.
pub open spec fn face_view(
    grid: Seq<Block>,
    types: Seq<BlockMetadataView>,
    textures: Map<Seq<char>, usize>,
    i: int,
    face: CubeFace,
) -> FaceView {
    FaceView {
        face,
        coord: (voxel_x(i) as u8, voxel_y(i) as u8, voxel_z(i) as u8),
        uvs: face_uvs(
            textures[face_texture_name(types[grid[i].block_type as int], face.spec_index())],
        ),
    }
}

/// Of the first `n` faces of the block at place `i`, in the order of [`CubeFace`], those
/// that are not hidden.
pub open spec fn voxel_faces(
    grid: Seq<Block>,
    types: Seq<BlockMetadataView>,
    textures: Map<Seq<char>, usize>,
    i: int,
    n: int,
) -> Seq<FaceView>
    decreases n,
{
    if n <= 0 {
        Seq::empty()
    } else {
        let earlier = voxel_faces(grid, types, textures, i, n - 1);
        let face = CubeFace::spec_from_index(n - 1);
        if neighbor_hides(grid, types, i, face) {
            earlier
        } else {
            earlier.push(face_view(grid, types, textures, i, face))
        }
    }
}

/// The faces of the block at place `i`: none for a block that is not drawn as a cube, and
/// for a cube those of its six faces that are not hidden.
pub open spec fn block_faces(
    grid: Seq<Block>,
    types: Seq<BlockMetadataView>,
    textures: Map<Seq<char>, usize>,
    i: int,
) -> Seq<FaceView> {
    if is_cube(types, grid[i]) {
        voxel_faces(grid, types, textures, i, 6)
    } else {
        Seq::empty()
    }
}

/// The faces of the first `n` blocks of a chunk, block after block in storage order.
pub open spec fn chunk_faces(
    grid: Seq<Block>,
    types: Seq<BlockMetadataView>,
    textures: Map<Seq<char>, usize>,
    n: int,
) -> Seq<FaceView>
    decreases n,
{
    if n <= 0 {
        Seq::empty()
    } else {
        chunk_faces(grid, types, textures, n - 1) + block_faces(grid, types, textures, n - 1)
    }
}

/// Once a block that cannot be meshed is found, it stays the first one however far the
/// search goes on.
pub proof fn lemma_first_fault_found(
    grid: Seq<Block>,
    types: Seq<BlockMetadataView>,
    textures: Map<Seq<char>, usize>,
    i: int,
    n: int,
)
    requires
        0 <= i < n,
        first_fault(grid, types, textures, i) is None,
        block_fault(types, textures, grid[i]) is Some,
    ensures
        first_fault(grid, types, textures, n) == Some(i),
    decreases n - i,
{
    if n > i + 1 {
        lemma_first_fault_found(grid, types, textures, i, n - 1);
    }
}

/// What the mesher needs to know of a block type.
struct TypeInfo {
    drawn: bool,
    fault: Option<MeshFault>,
    atlas: [usize; 6],
}

/// Whether `info` says of the block type number `t` what the mesher needs.
spec fn info_matches(
    info: TypeInfo,
    types: Seq<BlockMetadataView>,
    textures: Map<Seq<char>, usize>,
    t: int,
) -> bool {
    let block = Block { block_type: t as u16 };
    &&& info.drawn == is_cube(types, block)
    &&& info.fault == block_fault(types, textures, block)
    &&& info.drawn && info.fault is None ==> forall|face: int|
        0 <= face < 6 ==> #[trigger] info.atlas@[face] == textures[face_texture_name(types[t], face)]
}

/// Looks up, for one block type, whether it is drawn, what is wrong with it and where
/// the textures of its faces stand in the atlas.
#[verifier::loop_isolation(false)]
fn type_info(meta: &BlockMetadata, textures: &BlockTextureIndexMap) -> (info: TypeInfo)
    ensures
        info.drawn == (!meta@.is_air() && meta@.shape == BlockShape::Cube),
        info.fault == (if meta@.is_air() {
            None
        } else if meta@.shape != BlockShape::Cube {
            Some(MeshFault::UnsupportedShape)
        } else if !(forall|face: int| 0 <= face < 6 ==> face_is_textured(meta@, textures@, face)) {
            Some(MeshFault::MissingTexture)
        } else {
            None
        }),
        info.drawn && info.fault is None ==> forall|face: int|
            0 <= face < 6 ==> #[trigger] info.atlas@[face] == textures@[face_texture_name(
                meta@,
                face,
            )],
{
    let mut atlas: [usize; 6] = [0, 0, 0, 0, 0, 0];
    if meta.is_air() {
        return TypeInfo { drawn: false, fault: None, atlas };
    }
    match meta.shape {
        BlockShape::Cube => {},
        _ => {
            return TypeInfo { drawn: false, fault: Some(MeshFault::UnsupportedShape), atlas };
        },
    }
    let mut face: usize = 0;
    while face < 6
        invariant
            face <= 6,
            forall|f: int| 0 <= f < face as int ==> face_is_textured(meta@, textures@, f),
            forall|f: int|
                0 <= f < face as int ==> #[trigger] atlas@[f] == textures@[face_texture_name(
                    meta@,
                    f,
                )],
        decreases 6 - face,
    {
        let texture = meta.face_textures[face];
        if texture >= meta.textures.len() {
            assert(!face_is_textured(meta@, textures@, face as int));
            return TypeInfo { drawn: true, fault: Some(MeshFault::MissingTexture), atlas };
        }
        let name = meta.textures[texture].partial();
        match textures.get(name.as_str()) {
            None => {
                assert(!face_is_textured(meta@, textures@, face as int));
                return TypeInfo { drawn: true, fault: Some(MeshFault::MissingTexture), atlas };
            },
            Some(index) => {
                atlas[face] = index;
            },
        }
        face = face + 1;
    }
    TypeInfo { drawn: true, fault: None, atlas }
}

/// Looks up what the mesher needs to know of every block type.
fn type_table(block_types: &Vec<BlockMetadata>, textures: &BlockTextureIndexMap) -> (table: Vec<
    TypeInfo,
>)
    ensures
        table@.len() == block_types@.len(),
        forall|t: int|
            0 <= t < table@.len() && t <= u16::MAX ==> info_matches(
                #[trigger] table@[t],
                metadata_views(block_types@),
                textures@,
                t,
            ),
{
    let mut table: Vec<TypeInfo> = Vec::with_capacity(block_types.len());
    let mut t: usize = 0;
    while t < block_types.len()
        invariant
            t <= block_types@.len(),
            table@.len() == t as nat,
            forall|k: int|
                0 <= k < t as int && k <= u16::MAX ==> info_matches(
                    #[trigger] table@[k],
                    metadata_views(block_types@),
                    textures@,
                    k,
                ),
        decreases block_types@.len() - t,
    {
        let info = type_info(&block_types[t], textures);
        table.push(info);
        t = t + 1;
    }
    table
}

/// The place in the storage order of the neighbour that the face `face` of the block at
/// place `i` looks at, if that neighbour lies inside the chunk.
fn neighbor_index(i: usize, face: CubeFace) -> (neighbor: Option<usize>)
    requires
        i < CHUNK_VOLUME,
    ensures
        ({
            let x = voxel_x(i as int) + face.spec_offset().0;
            let y = voxel_y(i as int) + face.spec_offset().1;
            let z = voxel_z(i as int) + face.spec_offset().2;
            match neighbor {
                Some(j) => in_chunk(x, y, z) && j == linear_index(x, y, z) && j < CHUNK_VOLUME,
                None => !in_chunk(x, y, z),
            }
        }),
{
    let step = face.offset();
    let x: i32 = (i / 4096) as i32 + step.0 as i32;
    let y: i32 = ((i / 16) % 256) as i32 + step.1 as i32;
    let z: i32 = (i % 16) as i32 + step.2 as i32;
    if x < 0 || y < 0 || z < 0 || x > 15 || y > 255 || z > 15 {
        None
    } else {
        proof {
            lemma_linear_index(x as int, y as int, z as int);
        }
        Some(((x as usize) * 256 + (y as usize)) * 16 + (z as usize))
    }
}

/// The texture corners of the four vertices of a face whose texture stands at place
/// `texture` of the atlas.
fn uv_corners(texture: usize) -> (uvs: [UvCorner; 4])
    ensures
        uvs@ == face_uvs(texture),
{
    let uvs = [
        UvCorner { texture, u_max: true, v_max: true },
        UvCorner { texture, u_max: true, v_max: false },
        UvCorner { texture, u_max: false, v_max: true },
        UvCorner { texture, u_max: false, v_max: false },
    ];
    uvs
}

/// Builds the mesh of a chunk. Every block that is drawn as a cube gives those of its six
/// faces that no cube inside the chunk hides; the faces stand in the mesh block after
/// block in storage order, and for each block in the order of [`CubeFace`]. Nothing is
/// built where a block cannot be meshed: the first such block is reported.
#[verifier::loop_isolation(false)]
pub fn build_chunk_mesh(
    chunk: &ChunkData,
    block_types: &Vec<BlockMetadata>,
    textures: &BlockTextureIndexMap,
) -> (result: Result<MeshData, MeshError>)
    requires
        chunk.wf(),
    ensures
        match result {
            Ok(mesh) => {
                &&& first_fault(
                    chunk@,
                    metadata_views(block_types@),
                    textures@,
                    CHUNK_VOLUME as int,
                ) is None
                &&& mesh@ == mesh_of_faces(
                    chunk_faces(
                        chunk@,
                        metadata_views(block_types@),
                        textures@,
                        CHUNK_VOLUME as int,
                    ),
                )
            },
            Err(e) => {
                &&& first_fault(
                    chunk@,
                    metadata_views(block_types@),
                    textures@,
                    CHUNK_VOLUME as int,
                ) matches Some(i)
                &&& e.x == voxel_x(i)
                &&& e.y == voxel_y(i)
                &&& e.z == voxel_z(i)
                &&& block_fault(metadata_views(block_types@), textures@, chunk@[i]) == Some(e.fault)
            },
        },
{
    let ghost grid = chunk@;
    let ghost types = metadata_views(block_types@);
    let ghost atlas = textures@;
    let table = type_table(block_types, textures);
    let mut builder = MeshBuilder::default();
    let mut i: usize = 0;
    while i < CHUNK_VOLUME
        invariant
            chunk.wf(),
            grid == chunk@,
            types == metadata_views(block_types@),
            atlas == textures@,
            i <= CHUNK_VOLUME,
            table@.len() == block_types@.len(),
            forall|t: int|
                0 <= t < table@.len() && t <= u16::MAX ==> info_matches(
                    #[trigger] table@[t],
                    types,
                    atlas,
                    t,
                ),
            first_fault(grid, types, atlas, i as int) is None,
            builder.wf(),
            builder@ == mesh_of_faces(chunk_faces(grid, types, atlas, i as int)),
            chunk_faces(grid, types, atlas, i as int).len() <= 6 * i,
            builder@.positions.len() == 4 * chunk_faces(grid, types, atlas, i as int).len(),
        decreases CHUNK_VOLUME - i,
    {
        let block = chunk.get_linear(i);
        let block_type = block.block_type as usize;
        let x: usize = i / 4096;
        let y: usize = (i / 16) % 256;
        let z: usize = i % 16;
        if block_type >= table.len() {
            proof {
                lemma_first_fault_found(grid, types, atlas, i as int, CHUNK_VOLUME as int);
            }
            return Err(MeshError { fault: MeshFault::UnknownBlock, x, y, z });
        }
        match table[block_type].fault {
            Some(fault) => {
                proof {
                    lemma_first_fault_found(grid, types, atlas, i as int, CHUNK_VOLUME as int);
                }
                return Err(MeshError { fault, x, y, z });
            },
            None => {},
        }
        let ghost done = chunk_faces(grid, types, atlas, i as int);
        if table[block_type].drawn {
            let coord: [u8; 3] = [x as u8, y as u8, z as u8];
            let mut f: usize = 0;
            while f < 6
                invariant
                    chunk.wf(),
                    grid == chunk@,
                    i < CHUNK_VOLUME,
                    f <= 6,
                    block == grid[i as int],
                    block_type == block.block_type,
                    block_type < table@.len(),
                    x == voxel_x(i as int),
                    y == voxel_y(i as int),
                    z == voxel_z(i as int),
                    coord@ == seq![x as u8, y as u8, z as u8],
                    forall|t: int|
                        0 <= t < table@.len() && t <= u16::MAX ==> info_matches(
                            #[trigger] table@[t],
                            types,
                            atlas,
                            t,
                        ),
                    table@[block_type as int].drawn,
                    table@[block_type as int].fault is None,
                    done == chunk_faces(grid, types, atlas, i as int),
                    done.len() <= 6 * i,
                    voxel_faces(grid, types, atlas, i as int, f as int).len() <= f,
                    builder.wf(),
                    builder@ == mesh_of_faces(
                        done + voxel_faces(grid, types, atlas, i as int, f as int),
                    ),
                    builder@.positions.len() == 4 * (done.len() + voxel_faces(
                        grid,
                        types,
                        atlas,
                        i as int,
                        f as int,
                    ).len()),
                decreases 6 - f,
            {
                let face = CubeFace::from_index(f).unwrap();
                let ghost shown = voxel_faces(grid, types, atlas, i as int, f as int);
                let hidden = match neighbor_index(i, face) {
                    None => false,
                    Some(j) => {
                        let other = chunk.get_linear(j);
                        let other_type = other.block_type as usize;
                        if other_type < table.len() {
                            assert(info_matches(
                                table@[other_type as int],
                                types,
                                atlas,
                                other_type as int,
                            ));
                            table[other_type].drawn
                        } else {
                            false
                        }
                    },
                };
                let texture = table[block_type].atlas[f];
                proof {
                    crate::types::misc::lemma_face_index_round_trip(face);
                    if !hidden {
                        let added = face_view(grid, types, atlas, i as int, face);
                        assert((done + shown.push(added)).drop_last() =~= done + shown);
                    }
                }
                builder.add_face_if(!hidden, face, coord, uv_corners(texture));
                f = f + 1;
            }
        } else {
            assert(done + block_faces(grid, types, atlas, i as int) =~= done);
        }
        i = i + 1;
    }
    Ok(builder.build())
}

/// Every face of a block has four texture corners, and a block shows six faces at most.
pub proof fn lemma_voxel_faces(
    grid: Seq<Block>,
    types: Seq<BlockMetadataView>,
    textures: Map<Seq<char>, usize>,
    i: int,
    n: int,
)
    requires
        0 <= n,
    ensures
        voxel_faces(grid, types, textures, i, n).len() <= n,
        forall|k: int|
            0 <= k < voxel_faces(grid, types, textures, i, n).len() ==> (#[trigger] voxel_faces(
                grid,
                types,
                textures,
                i,
                n,
            )[k]).uvs.len() == 4,
        (forall|f: int| 0 <= f < n ==> !neighbor_hides(grid, types, i, CubeFace::spec_from_index(f)))
            ==> voxel_faces(grid, types, textures, i, n).len() == n,
        (forall|f: int| 0 <= f < n ==> neighbor_hides(grid, types, i, CubeFace::spec_from_index(f)))
            ==> voxel_faces(grid, types, textures, i, n).len() == 0,
    decreases n,
{
    if n > 0 {
        lemma_voxel_faces(grid, types, textures, i, n - 1);
    }
}

/// Every face of a chunk has four texture corners, and `n` blocks show `6 n` faces at most.
pub proof fn lemma_chunk_faces(
    grid: Seq<Block>,
    types: Seq<BlockMetadataView>,
    textures: Map<Seq<char>, usize>,
    n: int,
)
    requires
        0 <= n,
    ensures
        chunk_faces(grid, types, textures, n).len() <= 6 * n,
        forall|k: int|
            0 <= k < chunk_faces(grid, types, textures, n).len() ==> (#[trigger] chunk_faces(
                grid,
                types,
                textures,
                n,
            )[k]).uvs.len() == 4,
        (forall|j: int| 0 <= j < n ==> !is_cube(types, #[trigger] grid[j])) ==> chunk_faces(
            grid,
            types,
            textures,
            n,
        ).len() == 0,
    decreases n,
{
    if n > 0 {
        lemma_chunk_faces(grid, types, textures, n - 1);
        lemma_voxel_faces(grid, types, textures, n - 1, 6);
        let earlier = chunk_faces(grid, types, textures, n - 1);
        let added = block_faces(grid, types, textures, n - 1);
        let faces = chunk_faces(grid, types, textures, n);
        assert forall|k: int| 0 <= k < faces.len() implies (#[trigger] faces[k]).uvs.len()
            == 4 by {
            if k >= earlier.len() {
                assert(faces[k] == added[k - earlier.len()]);
            } else {
                assert(faces[k] == earlier[k]);
            }
        }
        if forall|j: int| 0 <= j < n ==> !is_cube(types, #[trigger] grid[j]) {
            assert(!is_cube(types, grid[n - 1]));
        }
    }
}

/// A block whose six neighbours all lie inside the chunk and are drawn as cubes shows no
/// face.
pub proof fn lemma_buried_block_shows_nothing(
    grid: Seq<Block>,
    types: Seq<BlockMetadataView>,
    textures: Map<Seq<char>, usize>,
    i: int,
)
    requires
        forall|f: int| 0 <= f < 6 ==> neighbor_hides(grid, types, i, CubeFace::spec_from_index(f)),
    ensures
        block_faces(grid, types, textures, i).len() == 0,
{
    lemma_voxel_faces(grid, types, textures, i, 6);
}

/// While the only cube of a chunk lies at place `at`, the blocks after it add no faces.
proof fn lemma_faces_after_lone_cube(
    grid: Seq<Block>,
    types: Seq<BlockMetadataView>,
    textures: Map<Seq<char>, usize>,
    at: int,
    n: int,
)
    requires
        0 <= at < n <= grid.len(),
        forall|j: int| 0 <= j < grid.len() && j != at ==> !is_cube(types, #[trigger] grid[j]),
    ensures
        chunk_faces(grid, types, textures, n) == block_faces(grid, types, textures, at),
    decreases n,
{
    if n == at + 1 {
        lemma_chunk_faces(grid, types, textures, at);
    } else {
        lemma_faces_after_lone_cube(grid, types, textures, at, n - 1);
        assert(chunk_faces(grid, types, textures, n) =~= chunk_faces(
            grid,
            types,
            textures,
            n - 1,
        ));
    }
}

/// A chunk whose only cube lies at place `at` has a mesh of the six faces of that cube: 24
/// vertices and 36 places in its triangles.
pub proof fn lemma_lone_cube_shows_six_faces(
    grid: Seq<Block>,
    types: Seq<BlockMetadataView>,
    textures: Map<Seq<char>, usize>,
    at: int,
)
    requires
        grid.len() == CHUNK_VOLUME as nat,
        0 <= at < CHUNK_VOLUME as int,
        is_cube(types, grid[at]),
        forall|j: int| 0 <= j < grid.len() && j != at ==> !is_cube(types, #[trigger] grid[j]),
    ensures
        chunk_faces(grid, types, textures, CHUNK_VOLUME as int).len() == 6,
        mesh_of_faces(chunk_faces(grid, types, textures, CHUNK_VOLUME as int)).positions.len()
            == 24,
        mesh_of_faces(chunk_faces(grid, types, textures, CHUNK_VOLUME as int)).indices.len() == 36,
{
    lemma_faces_after_lone_cube(grid, types, textures, at, CHUNK_VOLUME as int);
    assert forall|f: int| 0 <= f < 6 implies !neighbor_hides(
        grid,
        types,
        at,
        CubeFace::spec_from_index(f),
    ) by {
        let face = CubeFace::spec_from_index(f);
        let x = voxel_x(at) + face.spec_offset().0;
        let y = voxel_y(at) + face.spec_offset().1;
        let z = voxel_z(at) + face.spec_offset().2;
        if in_chunk(x, y, z) {
            lemma_linear_index(x, y, z);
        }
    }
    lemma_voxel_faces(grid, types, textures, at, 6);
    lemma_chunk_faces(grid, types, textures, CHUNK_VOLUME as int);
    crate::mesh_builder::lemma_mesh_of_faces(
        chunk_faces(grid, types, textures, CHUNK_VOLUME as int),
    );
}

} // verus!
