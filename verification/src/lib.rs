//! A zero-copy byte-position reader for parsers and lexers of large files.
//!
//! A [`ByteFile`] holds a read-only, memory-mapped snapshot of a file. A
//! [`Cursor`] moves over the snapshot's bytes and hands out `&[u8]` slices by
//! byte position, and a [`LineIndex`] converts positions into 1-based
//! `(line, column)` pairs and lines into byte ranges. Nothing is tokenised or
//! decoded: the crate is format-agnostic.
//!
//! # Conventions
//!
//! - A position ([`BytePos`]) is a `usize` byte offset from the start of its
//!   snapshot; a [`ByteRange`] is a half-open `[start, end)` pair with
//!   `start <= end`.
//! - Reads never panic: a position at or past EOF, or a read that would run
//!   past it, is answered with `None` or clamped to EOF.
//! - `(line, column)` values are 1-based and counted in bytes. Lines are
//!   terminated by `\n`, `\r\n` or a lone `\r`; the `\r` of a `\r\n` pair is a
//!   column of the line it terminates.
//!
//! # Snapshots
//!
//! The crate never mutates files. The caller must guarantee that no writer
//! truncates a mapped file while it is mapped; replacing a file by an atomic
//! rename leaves an open snapshot untouched. [`ByteFile::mapping_for`] decides
//! what a file of a given length maps to; the caller performs the mapping and
//! hands it to [`ByteFile::from_mapping`].

mod bytefile;
mod cursor;
mod error;
mod line_index;
mod position;
mod text;

pub use crate::bytefile::{ByteFile, Mapping};
pub use crate::cursor::{Cursor, CursorView};
pub use crate::error::{Error, Result};
pub use crate::line_index::LineIndex;
pub use crate::position::{BytePos, ByteRange};
