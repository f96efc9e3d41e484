//! Typed, checksummed chunks and the PNG containers built from them.
//!
//! A container is the eight signature bytes followed by chunks laid end to
//! end. Each chunk carries a big-endian length, a four-letter type, its data,
//! and a CRC-32 over type and data. The functions here parse such bytes, change
//! the list of chunks, and write the bytes out again; every contract is stated
//! over plain byte sequences.

pub mod error;
pub mod wire;
pub mod checksum;
pub mod text;
pub mod chunk_type;
pub mod chunk;
pub mod png;
pub mod commands;
pub mod args;
