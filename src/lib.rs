//! Decoding of RIFF/WAVE containers held in memory.
//!
//! `WavFile::new` walks a buffer chunk by chunk: a `Cursor` reads the
//! little-endian fields, one decoder per chunk kind (module `chunk`) turns
//! them into a `SubChunk`, and the dispatcher (module `wav`) stores each in
//! order, records the chunks of unknown kinds it passes over, and stops after
//! the `data` chunk. Each decoder is specified over the buffer's bytes, and
//! module `theorems` proves what follows for whole buffers.

pub mod cursor;
pub mod text;
pub mod chunk;
pub mod wav;
pub mod theorems;

pub use cursor::{Cursor, WavError};
pub use chunk::{
    FmtChunkData, FmtFormatTag, ListChunkData, ListData, ListTypeId, SubChunk, SubChunkData,
    SubChunkIds,
};
pub use wav::{SkippedChunk, WavFile};
