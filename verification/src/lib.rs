//! A verified model of a memory-mapped file library.
//!
//! The crate is organised around the two halves that matter for correctness:
//!
//! * the *range I/O engine* ([`codec`], [`engine`], [`cursor`]): bounds-checked
//!   byte access and endian-aware typed accessors over a mapped byte region;
//! * the *mapped-file lifecycle* ([`memory`], [`options`]): create / open /
//!   truncate / flush / freeze / close transitions over a region together with
//!   the backing store it was mapped from.
//!
//! The memory-backed file in [`memory`] is the reference implementation of the
//! whole contract: its backing buffer stands in for the durable file on disk
//! and its region buffer stands in for the live mapping, so every lifecycle
//! rule (what truncate preserves, what flush makes durable, what copy-on-write
//! never leaks back) is stated and proved here. A disk-backed variant only has
//! to drive the same transitions through the operating system's mapping calls.

pub mod codec;
pub mod cursor;
pub mod engine;
pub mod error;
pub mod laws;
pub mod memory;
pub mod options;

pub use cursor::{RangeCursor, SeekFrom};
pub use error::Error;
pub use memory::{FileView, MemoryMmapFile, MemoryMmapFileMut, MmapMode};
pub use options::Options;
