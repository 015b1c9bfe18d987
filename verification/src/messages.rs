use vstd::bytes::{
    lemma_auto_spec_u32_to_from_le_bytes, lemma_auto_spec_u64_to_from_le_bytes,
    spec_u32_from_le_bytes, spec_u32_to_le_bytes, spec_u64_from_le_bytes, spec_u64_to_le_bytes,
    u32_from_le_bytes, u32_to_le_bytes, u64_from_le_bytes, u64_to_le_bytes,
};
use vstd::prelude::*;
use vstd::slice::slice_subrange;
use crate::codec::{decode_payload, CodecError, CompressedChunkData};
use crate::types::block::Block;
use crate::types::chunk::ChunkData;

verus! {

/// The number that opens a chunk request on the wire: its place among the messages that a
/// client sends.
pub const CHUNK_REQUEST_TAG: u32 = 2;

/// The number that opens a chunk's data on the wire: its place among the messages that a
/// server sends.
pub const CHUNK_DATA_TAG: u32 = 5;

/// A client asks for the chunk at `(x, y)`.
#[derive(Debug, Clone, Copy, PartialEq, Eq, Structural)]
pub struct ChunkRequest {
    pub x: i64,
    pub y: i64,
}

/// A server hands out the chunk at `position`.
pub struct ChunkDataMessage {
    pub data: CompressedChunkData,
    pub position: (i64, i64),
}

/// A signed number as it travels: in two's complement.
pub open spec fn wire_u64(x: i64) -> u64 {
    if x >= 0 {
        x as u64
    } else {
        (x + 0x1_0000_0000_0000_0000) as u64
    }
}

/// The signed number that travels as `u`.
pub open spec fn wire_i64(u: u64) -> i64 {
    if u < 0x8000_0000_0000_0000 {
        u as i64
    } else {
        (u - 0x1_0000_0000_0000_0000) as i64
    }
}

/// A signed number survives the wire.
pub proof fn lemma_wire_round_trip(x: i64)
    ensures
        wire_i64(wire_u64(x)) == x,
{
}

/// The eight bytes of a signed number, low byte first.
pub open spec fn i64_bytes(x: i64) -> Seq<u8> {
    spec_u64_to_le_bytes(wire_u64(x))
}

/// A chunk request on the wire: the tag as four bytes, then `x` and `y` as eight bytes
/// each, all low byte first.
pub open spec fn chunk_request_bytes(x: i64, y: i64) -> Seq<u8> {
    spec_u32_to_le_bytes(CHUNK_REQUEST_TAG) + i64_bytes(x) + i64_bytes(y)
}

/// The chunk request that `bytes` start with, if they start with one. What follows the
/// request is not looked at.
pub open spec fn parse_chunk_request(bytes: Seq<u8>) -> Option<ChunkRequest> {
    if bytes.len() >= 20 && spec_u32_from_le_bytes(bytes.subrange(0, 4)) == CHUNK_REQUEST_TAG {
        Some(
            ChunkRequest {
                x: wire_i64(spec_u64_from_le_bytes(bytes.subrange(4, 12))),
                y: wire_i64(spec_u64_from_le_bytes(bytes.subrange(12, 20))),
            },
        )
    } else {
        None
    }
}

/// A chunk's data on the wire: the tag as four bytes, the payload's length as eight bytes,
/// the payload, and the position as twice eight bytes, all numbers low byte first.
pub open spec fn chunk_data_bytes(position: (i64, i64), payload: Seq<u8>) -> Seq<u8> {
    spec_u32_to_le_bytes(CHUNK_DATA_TAG) + spec_u64_to_le_bytes(payload.len() as u64) + payload
        + i64_bytes(position.0) + i64_bytes(position.1)
}

/// The length that a message with a chunk's data announces for its payload.
pub open spec fn announced_length(bytes: Seq<u8>) -> int {
    spec_u64_from_le_bytes(bytes.subrange(4, 12)) as int
}

/// The position and the payload of the chunk data that `bytes` start with, if they start
/// with such a message. What follows the message is not looked at.
pub open spec fn parse_chunk_data(bytes: Seq<u8>) -> Option<((i64, i64), Seq<u8>)> {
    if bytes.len() >= 12 && spec_u32_from_le_bytes(bytes.subrange(0, 4)) == CHUNK_DATA_TAG
        && bytes.len() >= 28 + announced_length(bytes) {
        let end = 12 + announced_length(bytes);
        Some(
            (
                (
                    wire_i64(spec_u64_from_le_bytes(bytes.subrange(end, end + 8))),
                    wire_i64(spec_u64_from_le_bytes(bytes.subrange(end + 8, end + 16))),
                ),
                bytes.subrange(12, end),
            ),
        )
    } else {
        None
    }
}

/// A chunk request that is written and read back is the same request.
pub proof fn lemma_chunk_request_round_trip(x: i64, y: i64)
    ensures
        chunk_request_bytes(x, y).len() == 20,
        parse_chunk_request(chunk_request_bytes(x, y)) == Some(ChunkRequest { x, y }),
{
    lemma_auto_spec_u32_to_from_le_bytes();
    lemma_auto_spec_u64_to_from_le_bytes();
    let bytes = chunk_request_bytes(x, y);
    assert(bytes.subrange(0, 4) =~= spec_u32_to_le_bytes(CHUNK_REQUEST_TAG));
    assert(bytes.subrange(4, 12) =~= i64_bytes(x));
    assert(bytes.subrange(12, 20) =~= i64_bytes(y));
}

/// A chunk's data that is written and read back has the same position and payload.
pub proof fn lemma_chunk_data_round_trip(position: (i64, i64), payload: Seq<u8>)
    requires
        payload.len() <= u64::MAX,
    ensures
        chunk_data_bytes(position, payload).len() == 28 + payload.len(),
        parse_chunk_data(chunk_data_bytes(position, payload)) == Some((position, payload)),
{
    lemma_auto_spec_u32_to_from_le_bytes();
    lemma_auto_spec_u64_to_from_le_bytes();
    let bytes = chunk_data_bytes(position, payload);
    let n = payload.len() as int;
    assert(bytes.subrange(0, 4) =~= spec_u32_to_le_bytes(CHUNK_DATA_TAG));
    assert(bytes.subrange(4, 12) =~= spec_u64_to_le_bytes(payload.len() as u64));
    assert(bytes.subrange(12 + n, 12 + n + 8) =~= i64_bytes(position.0));
    assert(bytes.subrange(12 + n + 8, 12 + n + 16) =~= i64_bytes(position.1));
    lemma_wire_round_trip(position.0);
    lemma_wire_round_trip(position.1);
}

/// Adds `bytes` to the end of `out`.
pub(crate) fn push_all(out: &mut Vec<u8>, bytes: &[u8])
    ensures
        final(out)@ == old(out)@ + bytes@,
{
    let ghost before = out@;
    let mut i: usize = 0;
    while i < bytes.len()
        invariant
            i <= bytes@.len(),
            out@ == before + bytes@.take(i as int),
        decreases bytes@.len() - i,
    {
        out.push(bytes[i]);
        i = i + 1;
    }
}

/// A signed number as it travels: in two's complement.
pub fn to_wire(x: i64) -> (u: u64)
    ensures
        u == wire_u64(x),
{
    if x >= 0 {
        x as u64
    } else {
        ((x + i64::MAX + 1) as u64) + 0x8000_0000_0000_0000u64
    }
}

/// The signed number that travels as `u`.
pub fn from_wire(u: u64) -> (x: i64)
    ensures
        x == wire_i64(u),
{
    if u < 0x8000_0000_0000_0000u64 {
        u as i64
    } else {
        ((u - 0x8000_0000_0000_0000u64) as i64) + i64::MIN
    }
}

/// Adds the eight bytes of `x` to the end of `out`.
fn push_i64(out: &mut Vec<u8>, x: i64)
    ensures
        final(out)@ == old(out)@ + i64_bytes(x),
{
    let bytes = u64_to_le_bytes(to_wire(x));
    push_all(out, bytes.as_slice());
}

/// The signed number whose eight bytes stand in `bytes` from place `at` on.
fn read_i64(bytes: &[u8], at: usize) -> (x: i64)
    requires
        at + 8 <= bytes@.len(),
    ensures
        x == wire_i64(spec_u64_from_le_bytes(bytes@.subrange(at as int, at + 8))),
{
    let total = bytes.len();
    assert(at + 8 <= total);
    from_wire(u64_from_le_bytes(slice_subrange(bytes, at, at + 8)))
}

/// Writes a chunk request for the wire.
pub fn encode_chunk_request(x: i64, y: i64) -> (bytes: Vec<u8>)
    ensures
        bytes@ == chunk_request_bytes(x, y),
        parse_chunk_request(bytes@) == Some(ChunkRequest { x, y }),
{
    let mut bytes = u32_to_le_bytes(CHUNK_REQUEST_TAG);
    push_i64(&mut bytes, x);
    push_i64(&mut bytes, y);
    proof {
        lemma_chunk_request_round_trip(x, y);
    }
    bytes
}

/// Reads a chunk request from the wire. Nothing is returned for bytes that start with
/// another message or are too short.
pub fn decode_chunk_request(bytes: &[u8]) -> (request: Option<ChunkRequest>)
    ensures
        request == parse_chunk_request(bytes@),
{
    if bytes.len() < 20 {
        return None;
    }
    let tag = u32_from_le_bytes(slice_subrange(bytes, 0, 4));
    if tag != CHUNK_REQUEST_TAG {
        return None;
    }
    let x = read_i64(bytes, 4);
    let y = read_i64(bytes, 12);
    Some(ChunkRequest { x, y })
}

/// Writes the data of the chunk at `position` for the wire.
pub fn encode_chunk_data(position: (i64, i64), payload: &[u8]) -> (bytes: Vec<u8>)
    ensures
        bytes@ == chunk_data_bytes(position, payload@),
        parse_chunk_data(bytes@) == Some((position, payload@)),
{
    let mut bytes = u32_to_le_bytes(CHUNK_DATA_TAG);
    let length = u64_to_le_bytes(payload.len() as u64);
    push_all(&mut bytes, length.as_slice());
    push_all(&mut bytes, payload);
    push_i64(&mut bytes, position.0);
    push_i64(&mut bytes, position.1);
    proof {
        lemma_chunk_data_round_trip(position, payload@);
    }
    bytes
}

/// Reads the data of a chunk from the wire. Nothing is returned for bytes that start with
/// another message or are too short.
pub fn decode_chunk_data(bytes: &[u8]) -> (message: Option<ChunkDataMessage>)
    ensures
        match message {
            Some(m) => parse_chunk_data(bytes@) == Some((m.position, m.data@)),
            None => parse_chunk_data(bytes@) is None,
        },
{
    if bytes.len() < 12 {
        return None;
    }
    let tag = u32_from_le_bytes(slice_subrange(bytes, 0, 4));
    if tag != CHUNK_DATA_TAG {
        return None;
    }
    let length = u64_from_le_bytes(slice_subrange(bytes, 4, 12));
    if bytes.len() < 28 || length > (bytes.len() - 28) as u64 {
        return None;
    }
    let end: usize = 12 + length as usize;
    let mut payload: Vec<u8> = Vec::new();
    push_all(&mut payload, slice_subrange(bytes, 12, end));
    let x = read_i64(bytes, end);
    let y = read_i64(bytes, end + 8);
    Some(ChunkDataMessage { data: CompressedChunkData(payload), position: (x, y) })
}

/// What a generation job hands out for the chunk at `position`: the chunk compressed and
/// written for the wire. Who reads and decompresses it gets the chunk's blocks.
pub fn chunk_data_message(position: (i64, i64), chunk: &ChunkData) -> (bytes: Vec<u8>)
    requires
        chunk.wf(),
    ensures
        parse_chunk_data(bytes@) matches Some(message) && message.0 == position
            && bytes@ == chunk_data_bytes(position, message.1) && decode_payload(message.1)
            == Ok::<Seq<Block>, CodecError>(chunk@),
{
    let compressed = CompressedChunkData::from_chunk(chunk);
    encode_chunk_data(position, compressed.as_bytes())
}

} // verus!
