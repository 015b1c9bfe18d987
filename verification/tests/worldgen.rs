use voxel_world::blocks::{register_blocks, BlockMetadata, BlockTypeManager, TexturePath};
use voxel_world::types::block::Block;
use voxel_world::types::chunk::ChunkData;
use voxel_world::worldgen::{
    chunk_seed, fill_column, terrain_key_name, ColumnRolls, TerrainBlocks, PRNG_SEED,
};

fn full_registry() -> BlockTypeManager {
    let mut registry = BlockTypeManager::new();
    register_blocks(&mut registry).unwrap();
    for key in ["diamond_ore", "coal_ore", "emerald_ore", "gold_ore", "iron_ore"] {
        let ore = BlockMetadata {
            key: key.to_string(),
            textures: vec![TexturePath::new(key)],
            ..BlockMetadata::default()
        };
        registry.register(ore).unwrap();
    }
    registry
}

fn terrain() -> TerrainBlocks {
    TerrainBlocks { air: 0, dirt: 1, grass: 2, stone: 3, bedrock: 4, ores: [6, 9, 8, 5, 7] }
}

fn column(chunk: &ChunkData, x: usize, z: usize, upto: usize) -> Vec<u16> {
    (0..upto).map(|y| chunk.get(x, y, z).block_type).collect()
}

#[test]
fn chunk_seed_flips_the_coordinates_into_the_seed() {
    assert_eq!(PRNG_SEED, 0x0DDB1A5E5BAD5EED);
    assert_eq!(chunk_seed(0, 0), PRNG_SEED);
    assert_eq!(chunk_seed(1, 2), PRNG_SEED ^ 1 ^ 2);
    assert_eq!(chunk_seed(5, 5), PRNG_SEED);
    assert_eq!(chunk_seed(-1, 0), PRNG_SEED ^ u64::MAX);
    assert_eq!(chunk_seed(-7, 12), PRNG_SEED ^ (-7i64 as u64) ^ 12);
    assert_eq!(chunk_seed(i64::MIN, i64::MAX), PRNG_SEED ^ (i64::MIN as u64) ^ (i64::MAX as u64));
}

#[test]
fn terrain_blocks_are_looked_up_by_key() {
    assert_eq!(TerrainBlocks::resolve(&full_registry()), Ok(terrain()));
    assert_eq!(terrain_key_name(0), "air");
    assert_eq!(terrain_key_name(5), "coal_ore");
    assert_eq!(terrain_key_name(9), "emerald_ore");
}

#[test]
fn missing_terrain_block_is_reported() {
    let mut registry = BlockTypeManager::new();
    assert_eq!(TerrainBlocks::resolve(&registry), Err(0));
    register_blocks(&mut registry).unwrap();
    assert_eq!(TerrainBlocks::resolve(&registry), Err(5));
}

#[test]
fn column_is_grass_over_dirt_over_stone() {
    let mut chunk = ChunkData::new();
    chunk.set(3, 200, 4, Block { block_type: 9 });
    chunk.set(4, 1, 4, Block { block_type: 9 });
    let rolls = ColumnRolls {
        height: 6,
        stone: vec![true, true, true, false, false, false],
        cave: vec![false; 6],
        ores: vec![[false; 5]; 6],
        bedrock: [true, false, false],
    };
    fill_column(&mut chunk, 3, 4, &rolls, &terrain());
    assert_eq!(column(&chunk, 3, 4, 8), vec![4, 3, 3, 1, 1, 2, 0, 0]);
    assert_eq!(chunk.get(3, 200, 4).block_type, 0);
    assert_eq!(chunk.get(4, 1, 4).block_type, 9);
    assert_eq!(chunk.get(3, 1, 5).block_type, 0);
}

#[test]
fn caves_ores_and_bedrock_overlay_the_terrain() {
    let mut chunk = ChunkData::new();
    let mut ores = vec![[false; 5]; 8];
    ores[1] = [true, false, false, false, false];
    ores[2] = [true, false, true, false, false];
    ores[3] = [false, false, false, false, true];
    ores[4] = [true, true, true, true, true];
    ores[5] = [true, true, true, true, true];
    ores[6] = [false, true, false, false, false];
    let rolls = ColumnRolls {
        height: 8,
        stone: vec![true, true, true, true, true, false, true, true],
        cave: vec![true, false, false, false, true, false, false, false],
        ores,
        bedrock: [false, false, true],
    };
    fill_column(&mut chunk, 15, 0, &rolls, &terrain());
    assert_eq!(column(&chunk, 15, 0, 9), vec![0, 6, 4, 7, 0, 1, 9, 3, 0]);
}

#[test]
fn top_layer_of_stone_stays_stone() {
    let mut chunk = ChunkData::new_test();
    let rolls = ColumnRolls {
        height: 2,
        stone: vec![false, true],
        cave: vec![false, false],
        ores: vec![[false; 5]; 2],
        bedrock: [false, true, true],
    };
    fill_column(&mut chunk, 0, 0, &rolls, &terrain());
    assert_eq!(column(&chunk, 0, 0, 5), vec![1, 4, 4, 0, 0]);
    assert_eq!(chunk.get(0, 3, 1).block_type, 1);
    let flat = ColumnRolls {
        height: 0,
        stone: Vec::new(),
        cave: Vec::new(),
        ores: Vec::new(),
        bedrock: [false; 3],
    };
    fill_column(&mut chunk, 0, 0, &flat, &terrain());
    assert_eq!(column(&chunk, 0, 0, 5), vec![0, 0, 0, 0, 0]);
    let full = ColumnRolls {
        height: 256,
        stone: vec![false; 256],
        cave: vec![false; 256],
        ores: vec![[true; 5]; 256],
        bedrock: [false; 3],
    };
    fill_column(&mut chunk, 0, 0, &full, &terrain());
    assert_eq!(chunk.get(0, 255, 0).block_type, 2);
    assert_eq!(chunk.get(0, 254, 0).block_type, 1);
}
