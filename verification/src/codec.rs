use vstd::prelude::*;
use crate::consts::{CHUNK_BYTES, CHUNK_VOLUME};
use crate::types::block::Block;
use crate::types::chunk::ChunkData;

verus! {

/// Longest payload that is handed to the decompressor.
pub const MAX_PAYLOAD_BYTES: usize = 0x100_0000;

/// Longest payload that compressing a chunk gives.
pub const MAX_CHUNK_PAYLOAD_BYTES: usize = 144204;

/// Why a payload was not turned into a chunk.
#[derive(Debug, Clone, Copy, PartialEq, Eq, Structural)]
pub enum CodecError {
    /// The payload is shorter than the four bytes of the size prefix.
    Truncated,
    /// The payload is longer than [`MAX_PAYLOAD_BYTES`].
    TooLong,
    /// The size prefix announces something else than the bytes of one chunk.
    SizeMismatch,
    /// The decompressor refused the payload.
    Corrupt,
    /// What came out of the decompressor is not as long as the bytes of one chunk.
    BadLength,
}

/// The low byte of a block type.
pub open spec fn low_byte(block: Block) -> u8 {
    (block.block_type % 256) as u8
}

/// The high byte of a block type.
pub open spec fn high_byte(block: Block) -> u8 {
    (block.block_type / 256) as u8
}

/// The block type that two bytes spell, low byte first.
pub open spec fn block_of(low: u8, high: u8) -> Block {
    Block { block_type: (low as int + 256 * high as int) as u16 }
}

/// The bytes of a run of blocks: for each block in turn its type as two bytes, low byte first.
pub open spec fn grid_bytes(blocks: Seq<Block>) -> Seq<u8> {
    Seq::new(
        2 * blocks.len(),
        |i: int|
            if i % 2 == 0 {
                low_byte(blocks[i / 2])
            } else {
                high_byte(blocks[i / 2])
            },
    )
}

/// The blocks that a run of bytes spells, two bytes to a block.
pub open spec fn bytes_grid(bytes: Seq<u8>) -> Seq<Block> {
    Seq::new(bytes.len() / 2, |i: int| block_of(bytes[2 * i], bytes[2 * i + 1]))
}

/// Reading back the bytes of a run of blocks gives the same blocks.
pub proof fn lemma_grid_bytes_round_trip(blocks: Seq<Block>)
    ensures
        grid_bytes(blocks).len() == 2 * blocks.len(),
        bytes_grid(grid_bytes(blocks)) == blocks,
{
    let bytes = grid_bytes(blocks);
    assert forall|i: int| 0 <= i < blocks.len() implies bytes_grid(bytes)[i] == blocks[i] by {
        assert(bytes[2 * i + 1] == high_byte(blocks[i]));
    }
}

/// Writing out the blocks that an even number of bytes spells gives the same bytes.
pub proof fn lemma_bytes_grid_round_trip(bytes: Seq<u8>)
    requires
        bytes.len() % 2 == 0,
    ensures
        grid_bytes(bytes_grid(bytes)) == bytes,
{
}

/// The bytes of a chunk before compression.
pub fn serialize_grid(chunk: &ChunkData) -> (bytes: Vec<u8>)
    requires
        chunk.wf(),
    ensures
        bytes@ == grid_bytes(chunk@),
        bytes@.len() == CHUNK_BYTES as nat,
{
    let mut bytes: Vec<u8> = Vec::with_capacity(CHUNK_BYTES);
    let mut i: usize = 0;
    while i < CHUNK_VOLUME
        invariant
            chunk.wf(),
            i <= CHUNK_VOLUME,
            bytes@.len() == 2 * i as nat,
            forall|k: int| 0 <= k < 2 * i as int ==> bytes@[k] == grid_bytes(chunk@)[k],
        decreases CHUNK_VOLUME - i,
    {
        let block = chunk.get_linear(i);
        let low: u8 = (block.block_type % 256) as u8;
        let high: u8 = (block.block_type / 256) as u8;
        bytes.push(low);
        bytes.push(high);
        i = i + 1;
    }
    bytes
}

/// The chunk that `bytes` spell, if they are as many as the bytes of one chunk.
pub fn deserialize_grid(bytes: &[u8]) -> (chunk: Option<ChunkData>)
    ensures
        bytes@.len() == CHUNK_BYTES as nat <==> chunk is Some,
        chunk matches Some(c) ==> c.wf() && c@ == bytes_grid(bytes@),
{
    if bytes.len() != CHUNK_BYTES {
        return None;
    }
    let mut blocks: Vec<Block> = Vec::with_capacity(CHUNK_VOLUME);
    let mut i: usize = 0;
    while i < CHUNK_VOLUME
        invariant
            bytes@.len() == CHUNK_BYTES as nat,
            i <= CHUNK_VOLUME,
            blocks@.len() == i as nat,
            forall|k: int| 0 <= k < i as int ==> blocks@[k] == bytes_grid(bytes@)[k],
        decreases CHUNK_VOLUME - i,
    {
        let low: u16 = bytes[2 * i] as u16;
        let high: u16 = bytes[2 * i + 1] as u16;
        blocks.push(Block { block_type: low + 256 * high });
        i = i + 1;
    }
    ChunkData::from_blocks(blocks)
}

/// The number that the first four bytes of a payload spell, low byte first: the length
/// that the payload announces for what was compressed.
pub open spec fn declared_size(bytes: Seq<u8>) -> int {
    bytes[0] as int + 256 * bytes[1] as int + 65536 * bytes[2] as int + 16777216 * bytes[3] as int
}

/// What `lz4_flex::decompress_size_prepended` returns for `input`: the decompressed bytes, or
/// nothing where it reports an error.
pub uninterp spec fn lz4_unblock(input: Seq<u8>) -> Option<Seq<u8>>;

/// Makes `lz4_flex::block::DecompressError` known: the error that
/// `lz4_flex::decompress_size_prepended` reports. Nothing is said of what it holds.
#[verifier::external_type_specification]
#[verifier::external_body]
pub struct ExDecompressError(lz4_flex::block::DecompressError);

/// Calls `lz4_flex::compress_prepend_size`. Trusted: the result starts with the input's
/// length as four bytes, low byte first; it is no longer than the buffer that the function
/// sets aside for it (the prefix, 20 bytes and eleven tenths of the input); and
/// `lz4_flex::decompress_size_prepended` gives the input back for it. Which bytes follow
/// the prefix is left open: the compressor hashes by the machine's pointer width and byte
/// order, so they differ from one kind of machine to another.
#[verifier::external_body]
fn lz4_compress(input: &[u8]) -> (out: Vec<u8>)
    requires
        input@.len() <= 0x4000_0000,
    ensures
        out@.len() >= 4,
        declared_size(out@) == input@.len(),
        out@.len() <= 25 + input@.len() + input@.len() / 10,
        lz4_unblock(out@) == Some(input@),
{
    lz4_flex::compress_prepend_size(input)
}

/// Calls `lz4_flex::decompress_size_prepended`, with the crate's checked decoding switched
/// on. Trusted: the result depends on the input alone, and an input that cannot be
/// decompressed gives an error. The input is kept short enough for the decoder's 32-bit
/// run lengths, and the size it announces small enough to be allocated.
#[verifier::external_body]
fn lz4_decompress(input: &[u8]) -> (result: Result<Vec<u8>, lz4_flex::block::DecompressError>)
    requires
        input@.len() <= MAX_PAYLOAD_BYTES,
        input@.len() >= 4 ==> declared_size(input@) <= isize::MAX,
    ensures
        match result {
            Ok(bytes) => lz4_unblock(input@) == Some(bytes@),
            Err(_) => lz4_unblock(input@) is None,
        },
{
    lz4_flex::decompress_size_prepended(input)
}

/// What a payload holds: the blocks of a chunk, or the reason why it is refused.
pub open spec fn decode_payload(payload: Seq<u8>) -> Result<Seq<Block>, CodecError> {
    if payload.len() < 4 {
        Err(CodecError::Truncated)
    } else if payload.len() > MAX_PAYLOAD_BYTES {
        Err(CodecError::TooLong)
    } else if declared_size(payload) != CHUNK_BYTES {
        Err(CodecError::SizeMismatch)
    } else {
        match lz4_unblock(payload) {
            None => Err(CodecError::Corrupt),
            Some(bytes) => if bytes.len() != CHUNK_BYTES {
                Err(CodecError::BadLength)
            } else {
                Ok(bytes_grid(bytes))
            },
        }
    }
}

/// The number that the first four bytes of `payload` spell.
fn read_declared_size(payload: &[u8]) -> (size: u64)
    requires
        payload@.len() >= 4,
    ensures
        size == declared_size(payload@),
{
    let b0: u64 = payload[0] as u64;
    let b1: u64 = payload[1] as u64;
    let b2: u64 = payload[2] as u64;
    let b3: u64 = payload[3] as u64;
    b0 + 256 * b1 + 65536 * b2 + 16777216 * b3
}

/// A chunk's blocks as they travel: serialized, compressed, with the uncompressed size in front.
pub struct CompressedChunkData(pub Vec<u8>);

impl View for CompressedChunkData {
    type V = Seq<u8>;

    open spec fn view(&self) -> Seq<u8> {
        self.0@
    }
}

impl CompressedChunkData {
    /// Compresses a chunk. Decompressing the result gives the same blocks back. The result
    /// announces the size of a chunk's bytes and is never much longer than they are.
    pub fn from_chunk(chunk: &ChunkData) -> (compressed: Self)
        requires
            chunk.wf(),
        ensures
            decode_payload(compressed@) == Ok::<Seq<Block>, CodecError>(chunk@),
            4 <= compressed@.len() <= MAX_CHUNK_PAYLOAD_BYTES,
            declared_size(compressed@) == CHUNK_BYTES,
    {
        let bytes = serialize_grid(chunk);
        let payload = lz4_compress(bytes.as_slice());
        proof {
            lemma_grid_bytes_round_trip(chunk@);
        }
        CompressedChunkData(payload)
    }

    /// Decompresses a payload into a chunk, or says why the payload is refused.
    pub fn to_chunk(&self) -> (result: Result<ChunkData, CodecError>)
        ensures
            match result {
                Ok(chunk) => chunk.wf() && decode_payload(self@) == Ok::<Seq<Block>, CodecError>(
                    chunk@,
                ),
                Err(e) => decode_payload(self@) == Err::<Seq<Block>, CodecError>(e),
            },
    {
        decompress_chunk(self.0.as_slice())
    }

    /// The payload's bytes.
    pub fn as_bytes(&self) -> (bytes: &[u8])
        ensures
            bytes@ == self@,
    {
        self.0.as_slice()
    }
}

/// Decompresses a payload into a chunk, or says why the payload is refused.
pub fn decompress_chunk(payload: &[u8]) -> (result: Result<ChunkData, CodecError>)
    ensures
        match result {
            Ok(chunk) => chunk.wf() && decode_payload(payload@) == Ok::<Seq<Block>, CodecError>(
                chunk@,
            ),
            Err(e) => decode_payload(payload@) == Err::<Seq<Block>, CodecError>(e),
        },
{
    if payload.len() < 4 {
        return Err(CodecError::Truncated);
    }
    if payload.len() > MAX_PAYLOAD_BYTES {
        return Err(CodecError::TooLong);
    }
    if read_declared_size(payload) != CHUNK_BYTES as u64 {
        return Err(CodecError::SizeMismatch);
    }
    match lz4_decompress(payload) {
        Err(_) => Err(CodecError::Corrupt),
        Ok(bytes) => match deserialize_grid(bytes.as_slice()) {
            None => Err(CodecError::BadLength),
            Some(chunk) => Ok(chunk),
        },
    }
}

} // verus!
