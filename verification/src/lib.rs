//! A verified model of the PNG container format: chunk types with their
//! four-letter naming convention, CRC-checked chunks, and the full byte
//! stream of a signature followed by a chunk sequence.

pub mod be_bytes;
pub mod checksum;
pub mod chunk;
pub mod chunk_type;
pub mod commands;
pub mod error;
pub mod png;
pub mod text;
