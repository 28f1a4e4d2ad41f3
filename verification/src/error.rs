//! The crate's error type.

use vstd::prelude::*;

use crate::position::BytePos;
use crate::text::{decimal, u64_decimal, usize_decimal};

verus! {

/// `std::io::Error`, the operating system's report that a call failed.
#[verifier::external_type_specification]
#[verifier::external_body]
pub struct ExIoError(std::io::Error);

/// The error type of every fallible operation in this crate.
///
/// Opening a file can fail with [`Error::Io`] or [`Error::FileTooLarge`];
/// building a range from reversed bounds fails with [`Error::ReversedRange`].
/// A position outside the snapshot is an ordinary outcome, answered with
/// `None` by the reads, never an error.
#[derive(Debug)]
#[non_exhaustive]
pub enum Error {
    /// An operating-system call failed: opening the file, reading its metadata,
    /// or creating the memory mapping. The underlying error is carried
    /// unchanged.
    Io(std::io::Error),
    /// The file is longer than this platform can address, so it cannot be
    /// memory-mapped into a snapshot.
    FileTooLarge {
        /// The file's length in bytes, as reported by the filesystem.
        len: u64,
    },
    /// A [`ByteRange`](crate::ByteRange) was requested with `start` greater
    /// than `end`.
    ReversedRange {
        /// The requested start position.
        start: BytePos,
        /// The requested end position.
        end: BytePos,
    },
}

/// The message of [`Error::FileTooLarge`] for a file of `len` bytes.
pub open spec fn file_too_large_text(len: nat) -> Seq<char> {
    "file of "@ + decimal(len) + " bytes is too large to address on this platform (usize holds at most "@
        + decimal(usize::MAX as nat) + " bytes)"@
}

/// The message of [`Error::ReversedRange`] for the bounds `start` and `end`.
pub open spec fn reversed_range_text(start: nat, end: nat) -> Seq<char> {
    "byte range start "@ + decimal(start) + " is greater than end "@ + decimal(end)
}

/// `std::io::Error`'s `Display`: the operating system's own message.
#[verifier::external_body]
fn io_error_text(error: &std::io::Error) -> String {
    error.to_string()
}

/// Whether an `io::Error`'s `kind()` is `ErrorKind::InvalidInput`.
pub uninterp spec fn io_error_is_invalid_input(error: std::io::Error) -> bool;

/// The message that an `io::Error` built by `io::Error::new` carries, which
/// its `Display` prints.
pub uninterp spec fn io_error_message(error: std::io::Error) -> Seq<char>;

/// `std::io::Error::new` with `ErrorKind::InvalidInput` and `message`: an
/// error of that kind carrying that message.
#[verifier::external_body]
fn invalid_input_error(message: String) -> (r: std::io::Error)
    ensures
        io_error_is_invalid_input(r),
        io_error_message(r) == message@,
{
    std::io::Error::new(std::io::ErrorKind::InvalidInput, message)
}

impl Error {
    /// The error's message, as `Display` would print it. An [`Error::Io`] is
    /// transparent: its message is the operating system's.
    pub fn to_string(&self) -> (r: String)
        ensures
            self matches Error::FileTooLarge { len } ==> r@ == file_too_large_text(len as nat),
            self matches Error::ReversedRange { start, end } ==> r@ == reversed_range_text(
                start@ as nat,
                end@ as nat,
            ),
    {
        match self {
            Error::Io(error) => io_error_text(error),
            Error::FileTooLarge { len } => {
                let mut text = String::from_str("file of ");
                let digits = u64_decimal(*len);
                text.append(digits.as_str());
                text.append(" bytes is too large to address on this platform (usize holds at most ");
                let limit = usize_decimal(usize::MAX);
                text.append(limit.as_str());
                text.append(" bytes)");
                text
            },
            Error::ReversedRange { start, end } => {
                let mut text = String::from_str("byte range start ");
                let first = start.to_string();
                text.append(first.as_str());
                text.append(" is greater than end ");
                let last = end.to_string();
                text.append(last.as_str());
                text
            },
        }
    }

    /// The underlying I/O error of an [`Error::Io`]; none for the crate's own
    /// variants.
    pub fn source(&self) -> (r: Option<&std::io::Error>)
        ensures
            r is Some <==> self is Io,
            r matches Some(error) ==> self matches Error::Io(inner) && *error == inner,
    {
        match self {
            Error::Io(error) => Some(error),
            _ => None,
        }
    }

    /// Recover an `io::Error`, for callers whose own API is `io::Result`.
    ///
    /// [`Error::Io`] is returned unchanged. The crate's own variants become
    /// `InvalidInput` errors carrying this error's message.
    pub fn into_io(self) -> (r: std::io::Error)
        ensures
            self matches Error::Io(error) ==> r == error,
            !(self is Io) ==> io_error_is_invalid_input(r),
            self matches Error::FileTooLarge { len } ==> io_error_message(r) == file_too_large_text(
                len as nat,
            ),
            self matches Error::ReversedRange { start, end } ==> io_error_message(r)
                == reversed_range_text(start@ as nat, end@ as nat),
    {
        match self {
            Error::Io(error) => error,
            other => invalid_input_error(other.to_string()),
        }
    }
}

impl vstd::std_specs::convert::FromSpecImpl<std::io::Error> for Error {
    open spec fn obeys_from_spec() -> bool {
        true
    }

    open spec fn from_spec(error: std::io::Error) -> Error {
        Error::Io(error)
    }
}

impl std::convert::From<std::io::Error> for Error {
    fn from(error: std::io::Error) -> (r: Error) {
        Error::Io(error)
    }
}

/// A specialized `Result` for this crate's fallible operations.
pub type Result<T> = std::result::Result<T, Error>;

} // verus!
