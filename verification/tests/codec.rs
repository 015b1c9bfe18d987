use voxel_world::codec::{
    decompress_chunk, deserialize_grid, serialize_grid, CodecError, CompressedChunkData,
    MAX_CHUNK_PAYLOAD_BYTES, MAX_PAYLOAD_BYTES,
};
use voxel_world::consts::{CHUNK_BYTES, CHUNK_HEIGHT, CHUNK_SIZE, CHUNK_VOLUME};
use voxel_world::types::block::Block;
use voxel_world::types::chunk::ChunkData;

fn same_blocks(a: &ChunkData, b: &ChunkData) -> bool {
    for x in 0..CHUNK_SIZE {
        for y in 0..CHUNK_HEIGHT {
            for z in 0..CHUNK_SIZE {
                if a.get(x, y, z) != b.get(x, y, z) {
                    return false;
                }
            }
        }
    }
    true
}

fn patterned_chunk() -> ChunkData {
    let mut chunk = ChunkData::new();
    for x in 0..CHUNK_SIZE {
        for y in 0..CHUNK_HEIGHT {
            for z in 0..CHUNK_SIZE {
                let block_type = ((x * 7919 + y * 104729 + z * 31) % 65536) as u16;
                chunk.set(x, y, z, Block { block_type });
            }
        }
    }
    chunk
}

#[test]
fn new_chunk_is_all_zero() {
    let chunk = ChunkData::new();
    for x in 0..CHUNK_SIZE {
        for y in 0..CHUNK_HEIGHT {
            for z in 0..CHUNK_SIZE {
                assert_eq!(chunk.get(x, y, z), Block { block_type: 0 });
            }
        }
    }
}

#[test]
fn test_chunk_has_forty_layers() {
    let chunk = ChunkData::new_test();
    assert_eq!(chunk.get(0, 0, 0).block_type, 1);
    assert_eq!(chunk.get(15, 39, 15).block_type, 1);
    assert_eq!(chunk.get(15, 40, 15).block_type, 0);
    assert_eq!(chunk.get(3, 255, 9).block_type, 0);
}

#[test]
fn set_changes_one_block() {
    let mut chunk = ChunkData::new();
    chunk.set(3, 200, 7, Block { block_type: 513 });
    assert_eq!(chunk.get(3, 200, 7).block_type, 513);
    assert_eq!(chunk.get(3, 200, 8).block_type, 0);
    assert_eq!(chunk.get(4, 200, 7).block_type, 0);
    assert_eq!(chunk.get(3, 199, 7).block_type, 0);
    assert_eq!(chunk.get_linear((3 * 256 + 200) * 16 + 7).block_type, 513);
}

#[test]
fn grid_bytes_are_little_endian_in_storage_order() {
    let mut chunk = ChunkData::new();
    chunk.set(0, 0, 0, Block { block_type: 0x0102 });
    chunk.set(0, 0, 1, Block { block_type: 0xfffe });
    chunk.set(0, 1, 0, Block { block_type: 7 });
    chunk.set(1, 0, 0, Block { block_type: 9 });
    let bytes = serialize_grid(&chunk);
    assert_eq!(bytes.len(), CHUNK_BYTES);
    assert_eq!(bytes.len(), 2 * CHUNK_VOLUME);
    assert_eq!(&bytes[0..4], &[0x02, 0x01, 0xfe, 0xff]);
    assert_eq!(&bytes[32..34], &[7, 0]);
    assert_eq!(&bytes[2 * 4096..2 * 4096 + 2], &[9, 0]);
}

#[test]
fn grid_bytes_agree_with_bincode() {
    let block_type: u16 = 0x0a0b;
    let mut chunk = ChunkData::new();
    chunk.set(0, 0, 0, Block { block_type });
    chunk.set(0, 0, 1, Block { block_type: 1 });
    let bytes = serialize_grid(&chunk);
    let small: [[[u16; 2]; 1]; 1] = [[[block_type, 1]]];
    let expected = bincode::serialize(&small).unwrap();
    assert_eq!(&bytes[0..4], &expected[..]);
}

#[test]
fn deserialize_grid_reads_back() {
    let chunk = patterned_chunk();
    let bytes = serialize_grid(&chunk);
    let back = deserialize_grid(&bytes).unwrap();
    assert!(same_blocks(&chunk, &back));
}

#[test]
fn deserialize_grid_wants_the_exact_length() {
    assert!(deserialize_grid(&vec![0u8; CHUNK_BYTES - 1]).is_none());
    assert!(deserialize_grid(&vec![0u8; CHUNK_BYTES + 1]).is_none());
    assert!(deserialize_grid(&[]).is_none());
    assert!(deserialize_grid(&vec![0u8; CHUNK_BYTES]).is_some());
}

#[test]
fn round_trip_empty_chunk() {
    let chunk = ChunkData::new();
    let compressed = CompressedChunkData::from_chunk(&chunk);
    let back = compressed.to_chunk().unwrap();
    assert!(same_blocks(&chunk, &back));
}

#[test]
fn round_trip_test_chunk() {
    let chunk = ChunkData::new_test();
    let compressed = CompressedChunkData::from_chunk(&chunk);
    let back = compressed.to_chunk().unwrap();
    assert!(same_blocks(&chunk, &back));
}

#[test]
fn round_trip_patterned_chunk() {
    let chunk = patterned_chunk();
    let compressed = CompressedChunkData::from_chunk(&chunk);
    let back = decompress_chunk(compressed.as_bytes()).unwrap();
    assert!(same_blocks(&chunk, &back));
}

#[test]
fn payload_starts_with_the_uncompressed_size() {
    let compressed = CompressedChunkData::from_chunk(&ChunkData::new());
    assert_eq!(&compressed.0[0..4], &(CHUNK_BYTES as u32).to_le_bytes());
}

#[test]
fn payload_is_never_much_longer_than_the_chunk() {
    assert_eq!(MAX_CHUNK_PAYLOAD_BYTES, 25 + CHUNK_BYTES + CHUNK_BYTES / 10);
    let compressed = CompressedChunkData::from_chunk(&patterned_chunk());
    assert!(compressed.0.len() >= 4);
    assert!(compressed.0.len() <= MAX_CHUNK_PAYLOAD_BYTES);
    assert!(compressed.0.len() <= MAX_PAYLOAD_BYTES);
}

#[test]
fn compression_shrinks_a_uniform_chunk() {
    let chunk = ChunkData::new();
    let compressed = CompressedChunkData::from_chunk(&chunk);
    assert!(compressed.0.len() < CHUNK_BYTES / 10);
    assert_ne!(compressed.0, serialize_grid(&chunk));
}

#[test]
fn payload_agrees_with_lz4_flex() {
    let chunk = ChunkData::new_test();
    let compressed = CompressedChunkData::from_chunk(&chunk);
    let expected = lz4_flex::compress_prepend_size(&serialize_grid(&chunk));
    assert_eq!(compressed.0, expected);
}

#[test]
fn truncated_payload_is_refused() {
    assert_eq!(decompress_chunk(&[]).err(), Some(CodecError::Truncated));
    assert_eq!(decompress_chunk(&[0, 0, 2]).err(), Some(CodecError::Truncated));
}

#[test]
fn wrong_size_prefix_is_refused() {
    let payload = lz4_flex::compress_prepend_size(&[1u8, 2, 3, 4, 5]);
    assert_eq!(decompress_chunk(&payload).err(), Some(CodecError::SizeMismatch));
    assert_eq!(
        CompressedChunkData(vec![0xff, 0xff, 0xff, 0xff, 0]).to_chunk().err(),
        Some(CodecError::SizeMismatch)
    );
}

#[test]
fn overlong_payload_is_refused() {
    let payload = vec![0u8; MAX_PAYLOAD_BYTES + 1];
    assert_eq!(decompress_chunk(&payload).err(), Some(CodecError::TooLong));
}

#[test]
fn corrupt_payload_is_refused() {
    let mut payload = (CHUNK_BYTES as u32).to_le_bytes().to_vec();
    payload.extend_from_slice(&[0xf0, 0xff, 0xff, 0x01, 0x02]);
    assert_eq!(decompress_chunk(&payload).err(), Some(CodecError::Corrupt));
    let cut = CompressedChunkData::from_chunk(&patterned_chunk());
    let half = &cut.0[..cut.0.len() / 2];
    assert_eq!(decompress_chunk(half).err(), Some(CodecError::Corrupt));
    let prefix_only = (CHUNK_BYTES as u32).to_le_bytes().to_vec();
    assert_eq!(decompress_chunk(&prefix_only).err(), Some(CodecError::Corrupt));
}
