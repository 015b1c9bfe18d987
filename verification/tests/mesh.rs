use voxel_world::assets::BlockTextureIndexMap;
use voxel_world::blocks::{
    register_blocks, BlockMetadata, BlockShape, BlockTypeManager, TexturePath, FLAG_AIR,
};
use voxel_world::chunk_mesh::{build_chunk_mesh, MeshError, MeshFault};
use voxel_world::mesh_builder::{
    cube_face_normal, cube_face_vertex, MeshBuilder, MeshData, UvCorner,
};
use voxel_world::types::block::Block;
use voxel_world::types::chunk::ChunkData;
use voxel_world::types::misc::CubeFace;

fn corners(texture: usize) -> [UvCorner; 4] {
    [
        UvCorner { texture, u_max: true, v_max: true },
        UvCorner { texture, u_max: true, v_max: false },
        UvCorner { texture, u_max: false, v_max: true },
        UvCorner { texture, u_max: false, v_max: false },
    ]
}

fn world() -> (BlockTypeManager, BlockTextureIndexMap) {
    let mut registry = BlockTypeManager::new();
    register_blocks(&mut registry).unwrap();
    let mut textures = BlockTextureIndexMap::default();
    for (index, name) in
        ["dirt", "grass_block_top", "grass_block_side", "stone", "bedrock"].iter().enumerate()
    {
        textures.insert(name.to_string(), index + 10);
    }
    (registry, textures)
}

fn mesh_of(chunk: &ChunkData) -> MeshData {
    let (registry, textures) = world();
    build_chunk_mesh(chunk, registry.block_types(), &textures).unwrap()
}

#[test]
fn face_tables_match_the_cube() {
    assert_eq!(cube_face_vertex(CubeFace::Top, 0), (0, 1, 0));
    assert_eq!(cube_face_vertex(CubeFace::Top, 3), (1, 1, 1));
    assert_eq!(cube_face_vertex(CubeFace::Front, 2), (1, 0, 0));
    assert_eq!(cube_face_vertex(CubeFace::Left, 1), (0, 1, 1));
    assert_eq!(cube_face_vertex(CubeFace::Right, 2), (1, 0, 1));
    assert_eq!(cube_face_vertex(CubeFace::Back, 0), (1, 0, 1));
    assert_eq!(cube_face_vertex(CubeFace::Bottom, 1), (0, 0, 0));
    assert_eq!(cube_face_normal(CubeFace::Top), (0, 1, 0));
    assert_eq!(cube_face_normal(CubeFace::Front), (0, 0, -1));
    assert_eq!(cube_face_normal(CubeFace::Left), (-1, 0, 0));
    assert_eq!(cube_face_normal(CubeFace::Right), (1, 0, 0));
    assert_eq!(cube_face_normal(CubeFace::Back), (0, 0, 1));
    assert_eq!(cube_face_normal(CubeFace::Bottom), (0, -1, 0));
    for face in
        [CubeFace::Top, CubeFace::Front, CubeFace::Left, CubeFace::Right, CubeFace::Back, CubeFace::Bottom]
    {
        let normal = cube_face_normal(face);
        for k in 0..4 {
            let v = cube_face_vertex(face, k);
            if normal.0 != 0 {
                assert_eq!(v.0 as i8, (normal.0 + 1) / 2);
            }
            if normal.1 != 0 {
                assert_eq!(v.1 as i8, (normal.1 + 1) / 2);
            }
            if normal.2 != 0 {
                assert_eq!(v.2 as i8, (normal.2 + 1) / 2);
            }
        }
    }
}

#[test]
fn cube_face_order_is_fixed() {
    assert_eq!(CubeFace::Top.index(), 0);
    assert_eq!(CubeFace::Front.index(), 1);
    assert_eq!(CubeFace::Left.index(), 2);
    assert_eq!(CubeFace::Right.index(), 3);
    assert_eq!(CubeFace::Back.index(), 4);
    assert_eq!(CubeFace::Bottom.index(), 5);
    for i in 0..6 {
        assert_eq!(CubeFace::from_index(i).unwrap().index(), i);
    }
    assert_eq!(CubeFace::from_index(6), None);
    assert_eq!(CubeFace::Back.offset(), (0, 0, 1));
}

#[test]
fn builder_adds_four_vertices_and_two_triangles() {
    let mut builder = MeshBuilder::default();
    assert_eq!(builder.vertex_count(), 0);
    builder.add_face(CubeFace::Right, [3, 255, 15], corners(7));
    assert_eq!(builder.vertex_count(), 4);
    builder.add_face_if(false, CubeFace::Top, [0, 0, 0], corners(1));
    assert_eq!(builder.vertex_count(), 4);
    builder.add_face_if(true, CubeFace::Bottom, [1, 2, 3], corners(2));
    assert_eq!(builder.vertex_count(), 8);
    let mesh = builder.build();
    assert_eq!(
        mesh.positions,
        vec![
            (4, 255, 15),
            (4, 256, 15),
            (4, 255, 16),
            (4, 256, 16),
            (1, 2, 4),
            (1, 2, 3),
            (2, 2, 4),
            (2, 2, 3),
        ]
    );
    assert_eq!(mesh.normals[0..4], [(1, 0, 0); 4]);
    assert_eq!(mesh.normals[4..8], [(0, -1, 0); 4]);
    assert_eq!(mesh.indices, vec![0, 1, 2, 2, 1, 3, 4, 5, 6, 6, 5, 7]);
    assert_eq!(mesh.uvs[0..4], corners(7));
    assert_eq!(mesh.uvs[4..8], corners(2));
}

#[test]
fn empty_chunk_has_an_empty_mesh() {
    let mesh = mesh_of(&ChunkData::new());
    assert!(mesh.positions.is_empty());
    assert!(mesh.normals.is_empty());
    assert!(mesh.uvs.is_empty());
    assert!(mesh.indices.is_empty());
}

#[test]
fn isolated_cube_has_six_faces() {
    for (x, y, z) in [(5usize, 100usize, 9usize), (0, 0, 0), (15, 255, 15), (0, 255, 7)] {
        let mut chunk = ChunkData::new();
        chunk.set(x, y, z, Block { block_type: 3 });
        let mesh = mesh_of(&chunk);
        assert_eq!(mesh.positions.len(), 24);
        assert_eq!(mesh.normals.len(), 24);
        assert_eq!(mesh.uvs.len(), 24);
        assert_eq!(mesh.indices.len(), 36);
        assert_eq!(mesh.indices.len() / 3, 12);
        let normals: Vec<(i8, i8, i8)> = mesh.normals.iter().step_by(4).cloned().collect();
        assert_eq!(
            normals,
            vec![(0, 1, 0), (0, 0, -1), (-1, 0, 0), (1, 0, 0), (0, 0, 1), (0, -1, 0)]
        );
        for position in mesh.positions.iter() {
            assert!(position.0 as usize == x || position.0 as usize == x + 1);
            assert!(position.1 as usize == y || position.1 as usize == y + 1);
            assert!(position.2 as usize == z || position.2 as usize == z + 1);
        }
        assert_eq!(mesh.positions[0], (x as u16, y as u16 + 1, z as u16));
        assert_eq!(mesh.indices[6..12], [4, 5, 6, 6, 5, 7]);
        assert!(mesh.uvs.iter().all(|uv| uv.texture == 13));
    }
}

#[test]
fn buried_cube_has_no_faces() {
    let mut chunk = ChunkData::new();
    for x in 4..7 {
        for y in 10..13 {
            for z in 8..11 {
                chunk.set(x, y, z, Block { block_type: 1 });
            }
        }
    }
    let mesh = mesh_of(&chunk);
    assert_eq!(mesh.positions.len(), 4 * 54);
    assert_eq!(mesh.indices.len(), 6 * 54);
    let mut hollow = ChunkData::new();
    for x in 4..7 {
        for y in 10..13 {
            for z in 8..11 {
                if (x, y, z) != (5, 11, 9) {
                    hollow.set(x, y, z, Block { block_type: 1 });
                }
            }
        }
    }
    assert_eq!(mesh_of(&hollow).positions.len(), 4 * (54 + 6));
}

#[test]
fn two_touching_cubes_hide_the_faces_between_them() {
    let mut chunk = ChunkData::new();
    chunk.set(2, 2, 2, Block { block_type: 1 });
    chunk.set(3, 2, 2, Block { block_type: 4 });
    let mesh = mesh_of(&chunk);
    assert_eq!(mesh.positions.len(), 40);
    let normals: Vec<(i8, i8, i8)> = mesh.normals.iter().step_by(4).cloned().collect();
    assert_eq!(
        normals,
        vec![
            (0, 1, 0),
            (0, 0, -1),
            (-1, 0, 0),
            (0, 0, 1),
            (0, -1, 0),
            (0, 1, 0),
            (0, 0, -1),
            (1, 0, 0),
            (0, 0, 1),
            (0, -1, 0),
        ]
    );
    assert_eq!(mesh.uvs[0].texture, 10);
    assert_eq!(mesh.uvs[20].texture, 14);
}

#[test]
fn faces_at_the_border_are_always_made() {
    let mut chunk = ChunkData::new();
    for x in 0..16 {
        for y in 0..256 {
            for z in 0..16 {
                chunk.set(x, y, z, Block { block_type: 3 });
            }
        }
    }
    let mesh = mesh_of(&chunk);
    let faces = 2 * 16 * 16 + 4 * 16 * 256;
    assert_eq!(mesh.positions.len(), 4 * faces);
    assert_eq!(mesh.indices.len(), 6 * faces);
    assert_eq!(*mesh.indices.iter().max().unwrap() as usize, 4 * faces - 1);
}

#[test]
fn test_terrain_mesh_counts() {
    let mesh = mesh_of(&ChunkData::new_test());
    let faces = 2 * 16 * 16 + 4 * 16 * 40;
    assert_eq!(mesh.positions.len(), 4 * faces);
}

#[test]
fn grass_takes_its_textures_by_face() {
    let mut chunk = ChunkData::new();
    chunk.set(1, 1, 1, Block { block_type: 2 });
    let mesh = mesh_of(&chunk);
    let textures: Vec<usize> = mesh.uvs.iter().step_by(4).map(|uv| uv.texture).collect();
    assert_eq!(textures, vec![11, 12, 12, 12, 12, 10]);
    assert_eq!(mesh.uvs[0..4], corners(11));
}

#[test]
fn unknown_block_type_is_reported() {
    let (registry, textures) = world();
    let mut chunk = ChunkData::new();
    chunk.set(2, 3, 4, Block { block_type: 5 });
    chunk.set(9, 3, 4, Block { block_type: 77 });
    assert_eq!(
        build_chunk_mesh(&chunk, registry.block_types(), &textures).err(),
        Some(MeshError { fault: MeshFault::UnknownBlock, x: 2, y: 3, z: 4 })
    );
}

#[test]
fn shape_without_faces_is_reported() {
    let (mut registry, textures) = world();
    let flower = BlockMetadata {
        key: "flower".to_string(),
        shape: BlockShape::Cross,
        textures: vec![TexturePath::new("dirt")],
        ..BlockMetadata::default()
    };
    assert_eq!(registry.register(flower), Ok(5));
    let mut chunk = ChunkData::new();
    chunk.set(0, 200, 15, Block { block_type: 5 });
    assert_eq!(
        build_chunk_mesh(&chunk, registry.block_types(), &textures).err(),
        Some(MeshError { fault: MeshFault::UnsupportedShape, x: 0, y: 200, z: 15 })
    );
    let ghost = BlockMetadata {
        key: "ghost".to_string(),
        shape: BlockShape::Cross,
        flags: FLAG_AIR,
        textures: vec![TexturePath::new("ghost")],
        ..BlockMetadata::default()
    };
    assert_eq!(registry.register(ghost), Ok(6));
    let mut airy = ChunkData::new();
    airy.set(0, 200, 15, Block { block_type: 6 });
    assert!(build_chunk_mesh(&airy, registry.block_types(), &textures).unwrap().positions.is_empty());
}

#[test]
fn missing_texture_is_reported() {
    let (registry, _) = world();
    let mut textures = BlockTextureIndexMap::default();
    textures.insert("dirt".to_string(), 0);
    textures.insert("grass_block_top".to_string(), 1);
    assert_eq!(textures.get("dirt"), Some(0));
    assert_eq!(textures.get("stone"), None);
    let mut chunk = ChunkData::new();
    chunk.set(1, 0, 0, Block { block_type: 1 });
    chunk.set(2, 0, 0, Block { block_type: 2 });
    chunk.set(3, 0, 0, Block { block_type: 3 });
    assert_eq!(
        build_chunk_mesh(&chunk, registry.block_types(), &textures).err(),
        Some(MeshError { fault: MeshFault::MissingTexture, x: 2, y: 0, z: 0 })
    );
    let mut only_dirt = ChunkData::new();
    only_dirt.set(1, 0, 0, Block { block_type: 1 });
    assert!(build_chunk_mesh(&only_dirt, registry.block_types(), &textures).is_ok());
}

#[test]
fn fault_in_an_unregistered_list_is_a_missing_texture() {
    let types = vec![
        BlockMetadata { key: "air".to_string(), flags: FLAG_AIR, ..BlockMetadata::default() },
        BlockMetadata { key: "bare".to_string(), ..BlockMetadata::default() },
    ];
    let textures = BlockTextureIndexMap::default();
    let mut chunk = ChunkData::new();
    chunk.set(15, 255, 15, Block { block_type: 1 });
    assert_eq!(
        build_chunk_mesh(&chunk, &types, &textures).err(),
        Some(MeshError { fault: MeshFault::MissingTexture, x: 15, y: 255, z: 15 })
    );
}

#[test]
fn missing_textures_are_listed_once() {
    let (registry, _) = world();
    let mut textures = BlockTextureIndexMap::default();
    assert_eq!(
        textures.missing_textures(registry.block_types()),
        vec!["dirt", "grass_block_top", "grass_block_side", "stone", "bedrock"]
    );
    textures.insert("grass_block_side".to_string(), 4);
    textures.insert("dirt".to_string(), 1);
    assert_eq!(
        textures.missing_textures(registry.block_types()),
        vec!["grass_block_top", "stone", "bedrock"]
    );
    assert!(BlockTextureIndexMap::default().missing_textures(&Vec::new()).is_empty());
}
