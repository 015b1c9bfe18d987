use voxel_world::codec::CompressedChunkData;
use voxel_world::messages::{
    chunk_data_message, decode_chunk_data, decode_chunk_request, encode_chunk_data,
    encode_chunk_request, ChunkRequest, CHUNK_DATA_TAG, CHUNK_REQUEST_TAG,
};
use voxel_world::types::chunk::ChunkData;

#[test]
fn chunk_request_bytes_are_exact() {
    assert_eq!(
        encode_chunk_request(1, -2),
        vec![
            2, 0, 0, 0, 1, 0, 0, 0, 0, 0, 0, 0, 0xfe, 0xff, 0xff, 0xff, 0xff, 0xff, 0xff, 0xff
        ]
    );
    assert_eq!(CHUNK_REQUEST_TAG, 2);
    assert_eq!(CHUNK_DATA_TAG, 5);
}

#[test]
fn chunk_request_agrees_with_bincode() {
    for (x, y) in [(0i64, 0i64), (5, -5), (i64::MIN, i64::MAX), (-1, 1 << 40)] {
        let expected = bincode::serialize(&(2u32, x, y)).unwrap();
        assert_eq!(encode_chunk_request(x, y), expected);
        let read: (u32, i64, i64) = bincode::deserialize(&encode_chunk_request(x, y)).unwrap();
        assert_eq!(read, (2, x, y));
    }
}

#[test]
fn chunk_request_round_trip() {
    for (x, y) in [(0i64, 0i64), (5, -5), (i64::MIN, i64::MAX), (i64::MAX, i64::MIN), (-1, -1)] {
        assert_eq!(decode_chunk_request(&encode_chunk_request(x, y)), Some(ChunkRequest { x, y }));
    }
}

#[test]
fn chunk_request_is_told_from_other_messages() {
    let mut bytes = encode_chunk_request(7, 8);
    assert_eq!(decode_chunk_request(&bytes[..19]), None);
    bytes.push(99);
    assert_eq!(decode_chunk_request(&bytes), Some(ChunkRequest { x: 7, y: 8 }));
    bytes[0] = 1;
    assert_eq!(decode_chunk_request(&bytes), None);
    bytes[0] = 2;
    bytes[3] = 1;
    assert_eq!(decode_chunk_request(&bytes), None);
    assert_eq!(decode_chunk_request(&[]), None);
}

#[test]
fn chunk_data_bytes_are_exact() {
    assert_eq!(
        encode_chunk_data((-1, 2), &[9, 8, 7]),
        vec![
            5, 0, 0, 0, 3, 0, 0, 0, 0, 0, 0, 0, 9, 8, 7, 0xff, 0xff, 0xff, 0xff, 0xff, 0xff,
            0xff, 0xff, 2, 0, 0, 0, 0, 0, 0, 0
        ]
    );
}

#[test]
fn chunk_data_agrees_with_bincode() {
    let payload: Vec<u8> = (0..200u32).map(|i| (i * 7 % 256) as u8).collect();
    let position = (-12345i64, 67890i64);
    let expected = bincode::serialize(&(5u32, payload.clone(), position)).unwrap();
    assert_eq!(encode_chunk_data(position, &payload), expected);
}

#[test]
fn chunk_data_round_trip() {
    let payload = vec![1u8, 2, 3, 4, 5];
    let bytes = encode_chunk_data((i64::MIN, i64::MAX), &payload);
    let message = decode_chunk_data(&bytes).unwrap();
    assert_eq!(message.position, (i64::MIN, i64::MAX));
    assert_eq!(message.data.0, payload);
    let empty = decode_chunk_data(&encode_chunk_data((0, 0), &[])).unwrap();
    assert!(empty.data.0.is_empty());
}

#[test]
fn chunk_data_is_told_from_other_messages() {
    let bytes = encode_chunk_data((3, 4), &[1, 2, 3]);
    assert!(decode_chunk_data(&bytes[..bytes.len() - 1]).is_none());
    assert!(decode_chunk_data(&bytes[..11]).is_none());
    assert!(decode_chunk_data(&[]).is_none());
    let mut other = bytes.clone();
    other[0] = 4;
    assert!(decode_chunk_data(&other).is_none());
    let mut long = bytes.clone();
    long[11] = 0xff;
    assert!(decode_chunk_data(&long).is_none());
    let mut trailing = bytes.clone();
    trailing.extend_from_slice(&[1, 2, 3]);
    assert_eq!(decode_chunk_data(&trailing).unwrap().position, (3, 4));
    assert!(decode_chunk_request(&bytes).is_none());
}

#[test]
fn generated_chunk_travels_whole() {
    let chunk = ChunkData::new_test();
    let bytes = chunk_data_message((8, -8), &chunk);
    let message = decode_chunk_data(&bytes).unwrap();
    assert_eq!(message.position, (8, -8));
    assert_eq!(message.data.0, CompressedChunkData::from_chunk(&chunk).0);
    let back = message.data.to_chunk().unwrap();
    assert_eq!(back.get(3, 39, 3).block_type, 1);
    assert_eq!(back.get(3, 40, 3).block_type, 0);
}
