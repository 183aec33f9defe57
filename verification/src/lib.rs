//! Chunk-level reading and editing of PNG containers.
//!
//! A PNG file is an eight-byte signature followed by chunks. Each chunk is
//! framed as a big-endian length, a four-letter type tag, a payload and a
//! CRC-32 over tag and payload. This crate parses such files, appends, finds
//! and removes chunks by type, and writes the result back as bytes.

pub mod args;
pub mod bytes;
pub mod checksum;
pub mod chunk;
pub mod chunk_type;
pub mod commands;
pub mod png;
pub mod text;
