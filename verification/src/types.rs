pub mod block;
pub mod chat;
pub mod chunk;
pub mod misc;
pub mod net;
