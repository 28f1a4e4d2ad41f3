//! A read-only, memory-mapped snapshot of a file's bytes.

use vstd::prelude::*;

use memmap2::Mmap;

use crate::cursor::Cursor;
use crate::error::Error;
use crate::line_index::{line_starts, LineIndex};
use crate::text::{decimal, usize_decimal};

verus! {

/// `memmap2::Mmap`, a read-only memory mapping of a file.
#[verifier::external_type_specification]
#[verifier::external_body]
pub struct ExMmap(Mmap);

/// The bytes that a mapping holds.
pub uninterp spec fn mapped_bytes(map: Mmap) -> Seq<u8>;

/// `Mmap`'s `Deref` to `[u8]`: the mapping's bytes as a slice. A slice never
/// spans more than `isize::MAX` bytes.
#[verifier::external_body]
fn mapping_slice(map: &Mmap) -> (r: &[u8])
    ensures
        r@ == mapped_bytes(*map),
        r@.len() <= isize::MAX,
{
    map
}

/// What opening a file of a given length maps: nothing for the empty file, or
/// the whole file.
#[derive(Clone, Copy, Debug, PartialEq, Eq, Structural)]
pub enum Mapping {
    /// The file is empty and maps to a zero-length snapshot without a mapping.
    Empty,
    /// The file's `len` bytes are mapped, all of them.
    Whole {
        /// The number of bytes to map: the file's length.
        len: usize,
    },
}

/// A zero-copy, read-only snapshot of a file's bytes.
///
/// All positions, slices and line/column results are relative to this
/// snapshot. The caller must guarantee that no writer truncates the mapped
/// file while it is mapped; replacing it by an atomic rename leaves an open
/// snapshot untouched.
pub struct ByteFile {
    mmap: Option<Mmap>,
}

impl View for ByteFile {
    type V = Seq<u8>;

    closed spec fn view(&self) -> Seq<u8> {
        match self.mmap {
            Some(map) => mapped_bytes(map),
            None => Seq::empty(),
        }
    }
}

impl ByteFile {
    /// What a file of `file_len` bytes maps to: an empty snapshot for the
    /// empty file, the whole file otherwise, and [`Error::FileTooLarge`] when
    /// the length does not fit this platform's `usize`. The file is rejected
    /// whole, never truncated.
    pub fn mapping_for(file_len: u64) -> (r: Result<Mapping, Error>)
        ensures
            r is Err <==> file_len > usize::MAX,
            r matches Err(e) ==> e == (Error::FileTooLarge { len: file_len }),
            r matches Ok(mapping) ==> mapping == if file_len == 0 {
                Mapping::Empty
            } else {
                Mapping::Whole { len: file_len as usize }
            },
    {
        if file_len as u128 > usize::MAX as u128 {
            return Err(Error::FileTooLarge { len: file_len });
        }
        if file_len == 0 {
            Ok(Mapping::Empty)
        } else {
            Ok(Mapping::Whole { len: file_len as usize })
        }
    }

    /// The zero-length snapshot of an empty file.
    pub fn empty_snapshot() -> (r: ByteFile)
        ensures
            r@ == Seq::<u8>::empty(),
    {
        ByteFile { mmap: None }
    }

    /// The snapshot held by `map`.
    pub fn from_mapping(map: Mmap) -> (r: ByteFile)
        ensures
            r@ == mapped_bytes(map),
    {
        ByteFile { mmap: Some(map) }
    }

    /// The snapshot's bytes as a slice (empty for an empty file).
    pub fn bytes(&self) -> (r: &[u8])
        ensures
            r@ == self@,
            r@.len() <= isize::MAX,
    {
        match &self.mmap {
            Some(map) => mapping_slice(map),
            None => &[],
        }
    }

    /// Total length of the snapshot in bytes.
    pub fn len(&self) -> (r: usize)
        ensures
            r == self@.len(),
    {
        self.bytes().len()
    }

    /// Whether the snapshot is empty.
    pub fn is_empty(&self) -> (r: bool)
        ensures
            r == (self@.len() == 0),
    {
        self.len() == 0
    }

    /// A [`Cursor`] over the whole snapshot, positioned at its start.
    pub fn cursor(&self) -> (r: Cursor<'_>)
        ensures
            r@.bytes == self@,
            r@.pos == 0,
    {
        Cursor::new(self.bytes())
    }

    /// A [`LineIndex`] over the whole snapshot.
    pub fn line_index(&self) -> (r: LineIndex)
        ensures
            r.starts() == line_starts(self@),
            r.len() == self@.len(),
    {
        LineIndex::new(self.bytes())
    }

    /// The snapshot's debug rendering: its length, never its contents.
    pub fn debug_string(&self) -> (r: String)
        ensures
            r@ == "ByteFile { len: "@ + decimal(self@.len()) + " }"@,
    {
        let mut text = String::from_str("ByteFile { len: ");
        let digits = usize_decimal(self.len());
        text.append(digits.as_str());
        text.append(" }");
        text
    }
}

} // verus!
