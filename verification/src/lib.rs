//! Client-side codec and connection-protocol layer for a versioned binary
//! game wire protocol: primitive value codec with bounded reads, frame
//! delimiting with optional compression, a symmetric feedback-mode cipher,
//! and the connection state machine that gates which packets are legal.

pub mod error;
pub mod cursor;
pub mod varint;
pub mod fixed;
pub mod read;
pub mod write;
pub mod strings;
pub mod seqs;
pub mod maps;
pub mod compress;
pub mod frame;
pub mod cipher;
pub mod text;
pub mod style;
pub mod difficulty;
pub mod resource_location;
pub mod packets;
pub mod state;
pub mod component;
pub mod server_links;
pub mod shape;
pub mod container;
pub mod roundtrip;


