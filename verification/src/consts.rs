use vstd::prelude::*;

verus! {

/// Horizontal edge length of a chunk, in blocks.
pub const CHUNK_SIZE: usize = 16;

/// Height of a chunk column, in blocks.
pub const CHUNK_HEIGHT: usize = 256;

/// Number of blocks in one chunk.
pub const CHUNK_VOLUME: usize = 65536;

/// Number of bytes one chunk takes on the wire before compression: two per block.
pub const CHUNK_BYTES: usize = 131072;

/// View distance, in chunks, that a client uses unless configured otherwise.
pub const DEFAULT_CLIENT_VIEW_DIST: usize = 6;

/// Largest view distance a server accepts from a client.
pub const MAX_MP_VIEW_DIST: usize = 32;

/// Largest distance at which a server still answers chunk requests.
pub const MAX_MP_REQ_DIST: usize = 34;

pub const DEFAULT_PORT: u16 = 12478;

pub const PROTOCOL_ID: u64 = 5;

pub const MAX_CLIENTS: usize = 64;

pub const CHANNEL_RELIABLE: u8 = 0;

pub const CHANNEL_UNRELIABLE: u8 = 1;

pub const CHANNEL_BLOCK: u8 = 2;

/// Shortest accepted user name, in bytes.
pub const MIN_NAME_LEN: usize = 3;

/// Longest accepted user name, in bytes.
pub const MAX_NAME_LEN: usize = 24;

} // verus!
