//! A one-directional byte cursor over a snapshot's bytes.

use vstd::prelude::*;

use crate::position::{BytePos, ByteRange};
use crate::text::{
    debug_escape, debug_escaped, decimal, lemma_usize_decimal_len, lossy_utf8, usize_decimal,
    utf8_lossy,
};

verus! {

/// What a cursor stands for: the bytes it reads and its position in them.
pub struct CursorView {
    /// The snapshot's bytes.
    pub bytes: Seq<u8>,
    /// The cursor position, never past `bytes.len()`.
    pub pos: nat,
}

/// The byte at `i`, or `None` outside the bytes.
pub open spec fn byte_at(bytes: Seq<u8>, i: int) -> Option<u8> {
    if 0 <= i < bytes.len() {
        Some(bytes[i])
    } else {
        None
    }
}

/// The smaller of `a` and `b`.
pub open spec fn min_int(a: int, b: int) -> int {
    if a <= b {
        a
    } else {
        b
    }
}

/// The number of bytes of the debug rendering's snippet.
pub open spec fn snippet_len() -> nat {
    20
}

/// A one-directional byte cursor over a snapshot.
///
/// Reading advances the internal position; seeking moves it explicitly. Reads
/// are short: they never fail on reaching EOF, they return what is available.
pub struct Cursor<'src> {
    source: &'src [u8],
    pos: BytePos,
    eof: BytePos,
}

impl<'src> View for Cursor<'src> {
    type V = CursorView;

    closed spec fn view(&self) -> CursorView {
        CursorView { bytes: self.source@, pos: self.pos@ as nat }
    }
}

impl<'src> Cursor<'src> {
    /// The position never passes EOF, and EOF is the end of the bytes.
    #[verifier::type_invariant]
    spec fn within_bounds(self) -> bool {
        &&& self.pos@ <= self.eof@
        &&& self.eof@ == self.source@.len()
    }

    /// Create a cursor at the start of `source`.
    pub fn new(source: &'src [u8]) -> (r: Cursor<'src>)
        ensures
            r@.bytes == source@,
            r@.pos == 0,
    {
        Cursor { source, pos: BytePos::zero(), eof: BytePos::new(source.len()) }
    }

    /// Current cursor position in bytes.
    pub fn position(&self) -> (r: BytePos)
        ensures
            r@ == self@.pos,
            self@.pos <= self@.bytes.len(),
    {
        proof {
            use_type_invariant(self);
        }
        self.pos
    }

    /// The position one past the last byte: the cursor's own limit, which every
    /// seek and advance clamps to.
    pub fn eof(&self) -> (r: BytePos)
        ensures
            r@ == self@.bytes.len(),
            self@.pos <= self@.bytes.len(),
    {
        proof {
            use_type_invariant(self);
        }
        self.eof
    }

    /// True if all bytes have been consumed.
    pub fn is_eof(&self) -> (r: bool)
        ensures
            r == (self@.pos == self@.bytes.len()),
    {
        proof {
            use_type_invariant(self);
        }
        self.pos.to_usize() >= self.eof.to_usize()
    }

    /// Number of bytes between the cursor and EOF.
    pub fn remaining_len(&self) -> (r: usize)
        ensures
            r == self@.bytes.len() - self@.pos,
    {
        proof {
            use_type_invariant(self);
        }
        self.eof.to_usize() - self.pos.to_usize()
    }

    /// Peek at the current byte without advancing; `None` at EOF.
    pub fn peek(&self) -> (r: Option<u8>)
        ensures
            r == byte_at(self@.bytes, self@.pos as int),
    {
        proof {
            use_type_invariant(self);
        }
        let at = self.pos.to_usize();
        if at < self.source.len() {
            Some(self.source[at])
        } else {
            None
        }
    }

    /// Peek at the `n`th byte ahead (0 = current); `None` past EOF.
    pub fn peek_n_ahead(&self, n: usize) -> (r: Option<u8>)
        ensures
            r == byte_at(self@.bytes, self@.pos + n),
    {
        proof {
            use_type_invariant(self);
        }
        let at = self.pos.to_usize().saturating_add(n);
        if at < self.source.len() {
            Some(self.source[at])
        } else {
            None
        }
    }

    /// The bytes of `range` (absolute byte positions), or `None` if the range
    /// ends past EOF.
    pub fn slice(&self, range: ByteRange) -> (r: Option<&'src [u8]>)
        ensures
            r is Some <==> range@.1 <= self@.bytes.len(),
            r matches Some(s) ==> s@ == self@.bytes.subrange(range@.0 as int, range@.1 as int),
    {
        proof {
            use_type_invariant(self);
        }
        let start = range.start().to_usize();
        let end = range.end().to_usize();
        if end > self.eof.to_usize() {
            return None;
        }
        Some(&self.source[start..end])
    }

    /// Read up to `n` bytes starting at the cursor position and advance past
    /// them.
    ///
    /// `None` if the cursor is already at EOF. Otherwise the bytes read (fewer
    /// than `n` near EOF, empty for `n == 0`).
    pub fn slice_n_ahead(&mut self, n: usize) -> (r: Option<&'src [u8]>)
        ensures
            final(self)@.bytes == old(self)@.bytes,
            r is None <==> old(self)@.pos == old(self)@.bytes.len(),
            r is None ==> final(self)@.pos == old(self)@.pos,
            r matches Some(s) ==> {
                &&& final(self)@.pos == min_int((old(self)@.pos + n) as int, old(self)@.bytes.len() as int)
                &&& s@ == old(self)@.bytes.subrange(old(self)@.pos as int, final(self)@.pos as int)
            },
    {
        proof {
            use_type_invariant(&*self);
        }
        if self.is_eof() {
            return None;
        }
        let start = self.pos.to_usize();
        let end = if n <= self.eof.to_usize() - start {
            start + n
        } else {
            self.eof.to_usize()
        };
        let slice = &self.source[start..end];
        self.pos = BytePos::new(end);
        Some(slice)
    }

    /// The bytes from the current position to EOF; `None` at EOF.
    pub fn rest(&self) -> (r: Option<&'src [u8]>)
        ensures
            r is None <==> self@.pos == self@.bytes.len(),
            r matches Some(s) ==> s@ == self@.bytes.subrange(self@.pos as int, self@.bytes.len() as int),
    {
        proof {
            use_type_invariant(self);
        }
        if self.is_eof() {
            return None;
        }
        Some(&self.source[self.pos.to_usize()..self.source.len()])
    }

    /// Move the cursor to an absolute byte position, clamping at EOF.
    pub fn seek(&mut self, pos: BytePos)
        ensures
            final(self)@.bytes == old(self)@.bytes,
            final(self)@.pos == min_int((pos@ as nat) as int, old(self)@.bytes.len() as int),
    {
        proof {
            use_type_invariant(&*self);
        }
        if pos.to_usize() <= self.eof.to_usize() {
            self.pos = pos;
        } else {
            self.pos = self.eof;
        }
    }

    /// Advance one byte, clamping at EOF.
    pub fn advance(&mut self)
        ensures
            final(self)@.bytes == old(self)@.bytes,
            final(self)@.pos == min_int((old(self)@.pos + 1) as int, old(self)@.bytes.len() as int),
    {
        self.advance_n_ahead(1);
    }

    /// Advance `n` bytes, clamping at EOF.
    pub fn advance_n_ahead(&mut self, n: usize)
        ensures
            final(self)@.bytes == old(self)@.bytes,
            final(self)@.pos == min_int((old(self)@.pos + n) as int, old(self)@.bytes.len() as int),
    {
        proof {
            use_type_invariant(&*self);
        }
        let at = self.pos.to_usize();
        if n <= self.eof.to_usize() - at {
            self.pos = BytePos::new(at + n);
        } else {
            self.pos = self.eof;
        }
    }

    /// If the upcoming bytes start with `prefix`, advance past it and return
    /// `true`; otherwise leave the cursor where it is and return `false`.
    ///
    /// At EOF there are no upcoming bytes, so this is `false` there, even for an
    /// empty `prefix`.
    #[verifier::loop_isolation(false)]
    pub fn advance_if_starts_with(&mut self, prefix: &[u8]) -> (r: bool)
        ensures
            final(self)@.bytes == old(self)@.bytes,
            r == {
                &&& old(self)@.pos < old(self)@.bytes.len()
                &&& old(self)@.pos + prefix@.len() <= old(self)@.bytes.len()
                &&& prefix@ == old(self)@.bytes.subrange(
                    old(self)@.pos as int,
                    old(self)@.pos + prefix@.len() as int,
                )
            },
            final(self)@.pos == if r {
                old(self)@.pos + prefix@.len()
            } else {
                old(self)@.pos
            },
    {
        proof {
            use_type_invariant(&*self);
        }
        let at = self.pos.to_usize();
        let eof = self.eof.to_usize();
        if at >= eof || prefix.len() > eof - at {
            return false;
        }
        let mut j: usize = 0;
        while j < prefix.len()
            invariant
                at < eof == self.source@.len(),
                at + prefix@.len() <= eof,
                j <= prefix@.len(),
                forall|k: int| 0 <= k < j ==> prefix@[k] == self.source@[at + k],
            decreases prefix@.len() - j,
        {
            if self.source[at + j] != prefix[j] {
                proof {
                    let whole = self.source@.subrange(at as int, at + prefix@.len());
                    assert(whole[j as int] != prefix@[j as int]);
                }
                return false;
            }
            j = j + 1;
        }
        proof {
            assert(prefix@ =~= self.source@.subrange(at as int, at + prefix@.len()));
        }
        self.pos = BytePos::new(at + prefix.len());
        true
    }

    /// Advance past bytes while `f` returns `true`, stopping at the first byte
    /// for which `f` returns `false`, or at EOF. The byte that stops the scan is
    /// left unconsumed.
    pub fn advance_until(&mut self, f: impl Fn(u8) -> bool)
        requires
            forall|b: u8| f.requires((b,)),
        ensures
            final(self)@.bytes == old(self)@.bytes,
            old(self)@.pos <= final(self)@.pos <= old(self)@.bytes.len(),
            forall|j: int|
                old(self)@.pos <= j < final(self)@.pos ==> f.ensures((old(self)@.bytes[j],), true),
            final(self)@.pos < old(self)@.bytes.len() ==> f.ensures(
                (old(self)@.bytes[final(self)@.pos as int],),
                false,
            ),
    {
        proof {
            use_type_invariant(&*self);
        }
        let ghost start = self@;
        loop
            invariant
                forall|b: u8| f.requires((b,)),
                self@.bytes == start.bytes,
                start.pos <= self@.pos <= start.bytes.len(),
                forall|j: int| start.pos <= j < self@.pos ==> f.ensures((start.bytes[j],), true),
            ensures
                self@.bytes == start.bytes,
                start.pos <= self@.pos <= start.bytes.len(),
                forall|j: int| start.pos <= j < self@.pos ==> f.ensures((start.bytes[j],), true),
                self@.pos < start.bytes.len() ==> f.ensures((start.bytes[self@.pos as int],), false),
            decreases start.bytes.len() - self@.pos,
        {
            match self.peek() {
                Some(b) => {
                    if f(b) {
                        self.advance();
                    } else {
                        break;
                    }
                },
                None => {
                    break;
                },
            }
        }
    }

    /// The cursor's debug rendering: its position, and either `EOF` or the
    /// next bytes (at most [`snippet_len`] of them), lossily decoded and
    /// quoted.
    pub fn debug_string(&self) -> (r: String)
        ensures
            r@ == if self@.pos == self@.bytes.len() {
                "Cursor(pos="@ + decimal(self@.pos) + ", EOF)"@
            } else {
                "Cursor(pos="@ + decimal(self@.pos) + ", next="@ + debug_escaped(
                    lossy_utf8(
                        self@.bytes.subrange(
                            self@.pos as int,
                            min_int((self@.pos + snippet_len()) as int, self@.bytes.len() as int),
                        ),
                    ),
                ) + ")"@
            },
            r@.len() <= 241,
    {
        proof {
            use_type_invariant(self);
        }
        let at = self.pos.to_usize();
        proof {
            lemma_usize_decimal_len(at);
            reveal_strlit("Cursor(pos=");
            reveal_strlit(", EOF)");
            reveal_strlit(", next=");
            reveal_strlit(")");
        }
        let mut text = String::from_str("Cursor(pos=");
        let digits = usize_decimal(at);
        text.append(digits.as_str());
        if self.is_eof() {
            text.append(", EOF)");
        } else {
            let len = self.source.len();
            let end = if len - at <= 20 {
                len
            } else {
                at + 20
            };
            let snippet = utf8_lossy(&self.source[at..end]);
            let quoted = debug_escape(snippet.as_str());
            text.append(", next=");
            text.append(quoted.as_str());
            text.append(")");
        }
        text
    }

    /// Advance to the first `stop` byte, or to EOF if there is none, leaving the
    /// `stop` byte unconsumed.
    pub fn advance_to(&mut self, stop: u8)
        ensures
            final(self)@.bytes == old(self)@.bytes,
            final(self)@.pos == next_index_of(old(self)@.bytes, old(self)@.pos, stop),
    {
        proof {
            use_type_invariant(&*self);
        }
        let ghost start = self@;
        let not_stop = |b: u8| -> (r: bool)
            ensures
                r == (b != stop),
            { b != stop };
        self.advance_until(not_stop);
        proof {
            lemma_next_index_of_unique(start.bytes, start.pos, stop, self@.pos);
        }
    }

    /// Advance to the first `stop` byte and past it, or to EOF if there is
    /// none.
    pub fn advance_through(&mut self, stop: u8)
        ensures
            final(self)@.bytes == old(self)@.bytes,
            final(self)@.pos == ({
                let at = next_index_of(old(self)@.bytes, old(self)@.pos, stop);
                if at < old(self)@.bytes.len() {
                    at + 1
                } else {
                    at
                }
            }),
    {
        proof {
            use_type_invariant(&*self);
        }
        let ghost start = self@;
        self.advance_to(stop);
        proof {
            lemma_next_index_of_unique(start.bytes, start.pos, stop, self@.pos);
        }
        if self.peek() == Some(stop) {
            self.advance();
        }
    }
}

/// The index of the first `stop` byte at or after `from`, or the end of the
/// bytes when there is none.
pub open spec fn next_index_of(bytes: Seq<u8>, from: nat, stop: u8) -> nat
    decreases bytes.len() - from,
{
    if from >= bytes.len() {
        bytes.len()
    } else if bytes[from as int] == stop {
        from
    } else {
        next_index_of(bytes, from + 1, stop)
    }
}

/// [`next_index_of`] is the one position at or after `from` that is preceded
/// by no `stop` byte since `from` and is either a `stop` byte or the end.
pub proof fn lemma_next_index_of_unique(bytes: Seq<u8>, from: nat, stop: u8, at: nat)
    requires
        from <= bytes.len(),
    ensures
        from <= next_index_of(bytes, from, stop) <= bytes.len(),
        forall|j: int| from <= j < next_index_of(bytes, from, stop) ==> bytes[j] != stop,
        next_index_of(bytes, from, stop) < bytes.len() ==> bytes[next_index_of(bytes, from, stop) as int]
            == stop,
        ({
            &&& from <= at <= bytes.len()
            &&& forall|j: int| from <= j < at ==> bytes[j] != stop
            &&& at < bytes.len() ==> bytes[at as int] == stop
        }) ==> at == next_index_of(bytes, from, stop),
    decreases bytes.len() - from,
{
    if from < bytes.len() && bytes[from as int] != stop {
        lemma_next_index_of_unique(bytes, from + 1, stop, at);
        if from <= at <= bytes.len() && at < bytes.len() ==> bytes[at as int] == stop {
            if at == from {
                assert(bytes[from as int] == stop || at == bytes.len());
            }
        }
    }
}

/// Reading in chunks loses and duplicates nothing: the bytes that a read of
/// `n` returns, followed by what remains after it, are what remained before
/// it, and what remains is `remaining_len` bytes long.
pub proof fn law_chunked_reads_reproduce_the_rest(bytes: Seq<u8>, pos: nat, n: nat)
    requires
        pos <= bytes.len(),
    ensures
        ({
            let end = min_int((pos + n) as int, bytes.len() as int);
            &&& pos <= end <= bytes.len()
            &&& bytes.subrange(pos as int, end) + bytes.subrange(end, bytes.len() as int)
                == bytes.subrange(pos as int, bytes.len() as int)
            &&& bytes.subrange(pos as int, bytes.len() as int).len() == bytes.len() - pos
        }),
{
    let end = min_int((pos + n) as int, bytes.len() as int);
    assert(bytes.subrange(pos as int, end) + bytes.subrange(end, bytes.len() as int)
        =~= bytes.subrange(pos as int, bytes.len() as int));
}

/// Stopping in front of a byte and then stepping over it is stepping through
/// it: `advance_through` ends one past where `advance_to` stops, unless that
/// is EOF.
pub proof fn law_through_is_one_past_to(bytes: Seq<u8>, pos: nat, stop: u8)
    requires
        pos <= bytes.len(),
    ensures
        next_index_of(bytes, pos, stop) < bytes.len() ==> bytes[next_index_of(bytes, pos, stop) as int]
            == stop,
        next_index_of(bytes, next_index_of(bytes, pos, stop), stop) == next_index_of(bytes, pos, stop),
{
    lemma_next_index_of_unique(bytes, pos, stop, pos);
    let at = next_index_of(bytes, pos, stop);
    lemma_next_index_of_unique(bytes, at, stop, at);
}

} // verus!
