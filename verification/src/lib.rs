//! The chunk pipeline of a networked voxel world, verified with Verus.
//!
//! A server generates the world in chunks, columns of 16 by 256 by 16 blocks, keeps them
//! and hands them out compressed; a client asks for the chunks around its player,
//! decompresses them and builds a mesh for each. This crate holds the rules of that
//! pipeline: the registry of block types ([`blocks`]), the chunk and its wire format
//! ([`types::chunk`], [`codec`], [`messages`]), the server's cache with its subscribers
//! ([`server`]), the client's chunks from request to mesh ([`world`]), the mesher
//! ([`mesh_builder`], [`chunk_mesh`]) and the terrain's layering ([`worldgen`]). It does no
//! input or output and starts no jobs: the program around it does, and hands it plain
//! values.

pub mod assets;
pub mod blocks;
pub mod chunk_mesh;
pub mod codec;
pub mod consts;
pub mod mesh_builder;
pub mod messages;
pub mod player;
pub mod server;
pub mod types;
pub mod utils;
pub mod world;
pub mod worldgen;
