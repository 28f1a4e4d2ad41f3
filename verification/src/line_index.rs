//! Precomputed line-start byte offsets for `pos -> (line, column)` mapping and
//! for `line -> bytes` lookup.
//!
//! The index is built in a single pass over a snapshot's bytes, with `memchr`
//! finding the next `\n` or `\r`; lookups are a binary search. No tokenisation
//! happens; this is format-agnostic.

use vstd::prelude::*;

use crate::position::{BytePos, ByteRange};
use crate::text::{decimal, usize_decimal};

verus! {

/// The line feed byte, `\n`.
pub const LF: u8 = 10u8;

/// The carriage return byte, `\r`.
pub const CR: u8 = 13u8;

/// `memchr::memchr2`: the first index of `haystack` that holds `needle1` or
/// `needle2`, or `None` when neither occurs.
pub assume_specification[ memchr::memchr2 ](needle1: u8, needle2: u8, haystack: &[u8]) -> (r: Option<usize>)
    ensures
        match r {
            Some(i) => {
                &&& i < haystack@.len()
                &&& (haystack@[i as int] == needle1 || haystack@[i as int] == needle2)
                &&& forall|j: int|
                    0 <= j < i ==> haystack@[j] != needle1 && haystack@[j] != needle2
            },
            None => forall|j: int|
                0 <= j < haystack@.len() ==> haystack@[j] != needle1 && haystack@[j] != needle2,
        },
;

/// Whether byte `i` of `b` is the last byte of a line terminator: a `\n`
/// (alone or closing a `\r\n` pair), or a `\r` that no `\n` follows.
pub open spec fn ends_line(b: Seq<u8>, i: int) -> bool {
    &&& 0 <= i < b.len()
    &&& (b[i] == LF || (b[i] == CR && !(i + 1 < b.len() && b[i + 1] == LF)))
}

/// The offsets just past each line terminator that ends among the first `n`
/// bytes of `b`, in increasing order.
pub open spec fn terminator_ends(b: Seq<u8>, n: int) -> Seq<usize>
    decreases n,
{
    if n <= 0 {
        seq![]
    } else if ends_line(b, n - 1) {
        terminator_ends(b, n - 1).push(n as usize)
    } else {
        terminator_ends(b, n - 1)
    }
}

/// The start offset of every line of `b`: zero, then the offset just past
/// each terminator. A trailing terminator starts a final, empty line.
pub open spec fn line_starts(b: Seq<u8>) -> Seq<usize> {
    seq![0usize].add(terminator_ends(b, b.len() as int))
}

/// `starts` is a valid line-start table for a snapshot of `len` bytes: it
/// begins at zero, strictly increases, and stays within the snapshot.
pub open spec fn valid_starts(starts: Seq<usize>, len: nat) -> bool {
    &&& starts.len() >= 1
    &&& starts[0] == 0
    &&& forall|i: int, j: int| 0 <= i < j < starts.len() ==> starts[i] < starts[j]
    &&& forall|i: int| 0 <= i < starts.len() ==> starts[i] <= len
}

/// The end of line `line` in a table `starts` over `len` bytes: the next
/// line's start, or the end of the snapshot for the last line.
pub open spec fn line_end(starts: Seq<usize>, len: nat, line: int) -> nat {
    if line + 1 < starts.len() {
        starts[line + 1] as nat
    } else {
        len
    }
}

/// `line` is the line that holds `offset`: the last line starting at or
/// before it.
pub open spec fn holds_offset(starts: Seq<usize>, line: int, offset: int) -> bool {
    &&& 0 <= line < starts.len()
    &&& starts[line] <= offset
    &&& (line + 1 == starts.len() || offset < starts[line + 1])
}

proof fn lemma_terminator_ends_bounded(b: Seq<u8>, n: int)
    requires
        0 <= n <= b.len(),
        b.len() <= usize::MAX,
    ensures
        terminator_ends(b, n).len() <= n,
        forall|k: int|
            0 <= k < terminator_ends(b, n).len() ==> 0 < #[trigger] terminator_ends(b, n)[k] <= n,
        forall|k1: int, k2: int|
            0 <= k1 < k2 < terminator_ends(b, n).len() ==> terminator_ends(b, n)[k1]
                < terminator_ends(b, n)[k2],
    decreases n,
{
    if n > 0 {
        lemma_terminator_ends_bounded(b, n - 1);
        let prev = terminator_ends(b, n - 1);
        if ends_line(b, n - 1) {
            let cur = prev.push(n as usize);
            assert(cur == terminator_ends(b, n));
            assert forall|k: int| 0 <= k < cur.len() implies 0 < #[trigger] cur[k] <= n by {
                if k < prev.len() {
                    assert(cur[k] == prev[k]);
                }
            }
            assert forall|k1: int, k2: int| 0 <= k1 < k2 < cur.len() implies cur[k1] < cur[k2] by {
                assert(cur[k1] == prev[k1]);
                if k2 < prev.len() {
                    assert(cur[k2] == prev[k2]);
                }
            }
        }
    }
}

/// A stretch of bytes with neither `\n` nor `\r` ends no line.
proof fn lemma_no_break_no_ends(b: Seq<u8>, from: int, to: int)
    requires
        0 <= from <= to <= b.len(),
        forall|j: int| from <= j < to ==> b[j] != LF && b[j] != CR,
    ensures
        terminator_ends(b, to) == terminator_ends(b, from),
    decreases to - from,
{
    if to > from {
        lemma_no_break_no_ends(b, from, to - 1);
    }
}

/// The line starts of `b` form a valid table for its length.
pub proof fn lemma_line_starts_valid(b: Seq<u8>)
    requires
        b.len() <= usize::MAX,
    ensures
        line_starts(b).len() <= b.len() + 1,
        valid_starts(line_starts(b), b.len()),
        line_starts(b).len() == terminator_ends(b, b.len() as int).len() + 1,
{
    let t = terminator_ends(b, b.len() as int);
    lemma_terminator_ends_bounded(b, b.len() as int);
    let s = line_starts(b);
    assert forall|i: int, j: int| 0 <= i < j < s.len() implies s[i] < s[j] by {
        if i == 0 {
            assert(s[j] == t[j - 1]);
        } else {
            assert(s[i] == t[i - 1] && s[j] == t[j - 1]);
        }
    }
    assert forall|i: int| 0 <= i < s.len() implies s[i] <= b.len() by {
        if i > 0 {
            assert(s[i] == t[i - 1]);
        }
    }
}

/// Precomputed line-start byte offsets for `pos -> (line, column)` mapping.
///
/// It holds no borrow of the snapshot's bytes, so positions stay resolvable
/// after the bytes are gone.
pub struct LineIndex {
    line_starts: Vec<usize>,
    len: usize,
}

impl LineIndex {
    #[verifier::type_invariant]
    spec fn wf(self) -> bool {
        &&& valid_starts(self.line_starts@, self.len as nat)
        &&& self.line_starts@.len() <= self.len + 1
        &&& self.len <= isize::MAX
    }

    /// The start offset of every line, in order.
    pub closed spec fn starts(&self) -> Seq<usize> {
        self.line_starts@
    }

    /// The length of the snapshot the index was built over.
    pub closed spec fn len(&self) -> nat {
        self.len as nat
    }

    /// Build line starts from a snapshot's bytes.
    ///
    /// `\n`, `\r\n`, and a lone `\r` are all line terminators. A trailing
    /// terminator yields a final (possibly empty) line, and bytes with no
    /// terminator at all (the empty snapshot included) have exactly one line.
    pub fn new(bytes: &[u8]) -> (r: LineIndex)
        requires
            bytes@.len() <= isize::MAX,
        ensures
            r.starts() == line_starts(bytes@),
            r.len() == bytes@.len(),
            r.starts()[0] == 0,
            forall|i: int, j: int| 0 <= i < j < r.starts().len() ==> r.starts()[i] < r.starts()[j],
            forall|i: int|
                #![trigger bytes@[i]]
                0 <= i < bytes@.len() ==> (r.starts().contains((i + 1) as usize) <==> (bytes@[i] == LF
                    || (bytes@[i] == CR && !(i + 1 < bytes@.len() && bytes@[i + 1] == LF)))),
            forall|k: int| 0 < k < r.starts().len() ==> 0 < #[trigger] r.starts()[k] <= bytes@.len(),
    {
        let len = bytes.len();
        let ghost b = bytes@;
        let mut starts: Vec<usize> = Vec::new();
        starts.push(0);
        let mut from: usize = 0;
        loop
            invariant
                len == b.len(),
                b == bytes@,
                from <= len,
                starts@ == seq![0usize].add(terminator_ends(b, from as int)),
            ensures
                starts@ == line_starts(b),
            decreases len - from,
        {
            let rest = &bytes[from..len];
            match memchr::memchr2(LF, CR, rest) {
                None => {
                    proof {
                        assert forall|j: int| from <= j < len implies b[j] != LF && b[j] != CR by {
                            assert(rest@[j - from] == b[j]);
                        }
                        lemma_no_break_no_ends(b, from as int, len as int);
                    }
                    break;
                },
                Some(k) => {
                    let i = from + k;
                    proof {
                        assert forall|j: int| from <= j < i implies b[j] != LF && b[j] != CR by {
                            assert(rest@[j - from] == b[j]);
                        }
                        lemma_no_break_no_ends(b, from as int, i as int);
                        assert(rest@[k as int] == b[i as int]);
                    }
                    let pair = bytes[i] == CR && i + 1 < len && bytes[i + 1] == LF;
                    if !pair {
                        starts.push(i + 1);
                    }
                    from = i + 1;
                },
            }
        }
        proof {
            lemma_line_starts_valid(b);
            law_line_starts_follow_the_terminators(b);
        }
        LineIndex { line_starts: starts, len }
    }

    /// Number of lines implied by the index.
    ///
    /// The index is always a valid table: there is at least one line, the
    /// first starts at zero, and the starts increase and stay within the
    /// snapshot.
    pub fn num_lines(&self) -> (r: usize)
        ensures
            r == self.starts().len(),
            valid_starts(self.starts(), self.len()),
    {
        proof {
            use_type_invariant(self);
        }
        self.line_starts.len()
    }

    /// Byte position where `line` starts (0-based), or `None` if `line` is out
    /// of range.
    pub fn line_start(&self, line: usize) -> (r: Option<BytePos>)
        ensures
            r is Some <==> line < self.starts().len(),
            r matches Some(start) ==> start@ == self.starts()[line as int],
    {
        if line < self.line_starts.len() {
            Some(BytePos::new(self.line_starts[line]))
        } else {
            None
        }
    }

    /// Half-open byte range of `line`, or `None` if `line` is out of range.
    ///
    /// The range runs from this line's start to the start of the next line, so
    /// it includes this line's terminator; the last line ends at the end of the
    /// snapshot.
    pub fn line_range(&self, line: usize) -> (r: Option<ByteRange>)
        ensures
            r is Some <==> line < self.starts().len(),
            r matches Some(range) ==> range@.0 == self.starts()[line as int] && range@.1
                == line_end(self.starts(), self.len(), line as int),
    {
        proof {
            use_type_invariant(self);
        }
        if line < self.line_starts.len() {
            let start = self.line_starts[line];
            let end = if line + 1 < self.line_starts.len() {
                self.line_starts[line + 1]
            } else {
                self.len
            };
            Some(ByteRange::new(BytePos::new(start), BytePos::new(end)))
        } else {
            None
        }
    }

    /// 0-based line index containing `offset`, or `None` if `offset` is past
    /// EOF.
    pub fn line_for_offset(&self, offset: BytePos) -> (r: Option<usize>)
        ensures
            r is Some <==> offset@ <= self.len(),
            r matches Some(line) ==> holds_offset(self.starts(), line as int, offset@ as int),
            r matches Some(line) ==> {
                &&& line < self.starts().len()
                &&& self.starts()[line as int] <= offset@
                &&& (line + 1 == self.starts().len() || offset@ < self.starts()[line + 1])
            },
    {
        proof {
            use_type_invariant(self);
        }
        let offset = offset.to_usize();
        if offset > self.len {
            return None;
        }
        let n = self.line_starts.len();
        let mut lo: usize = 0;
        let mut hi: usize = n;
        while hi - lo > 1
            invariant
                n == self.line_starts@.len(),
                valid_starts(self.line_starts@, self.len as nat),
                0 <= lo < hi <= n,
                self.line_starts@[lo as int] <= offset,
                hi == n || offset < self.line_starts@[hi as int],
            decreases hi - lo,
        {
            let mid = lo + (hi - lo) / 2;
            if self.line_starts[mid] <= offset {
                lo = mid;
            } else {
                hi = mid;
            }
        }
        Some(lo)
    }

    /// The index's debug rendering: its line count and the snapshot length.
    pub fn debug_string(&self) -> (r: String)
        ensures
            r@ == "LineIndex { num_lines: "@ + decimal(self.starts().len()) + ", len: "@ + decimal(
                self.len(),
            ) + " }"@,
    {
        let mut text = String::from_str("LineIndex { num_lines: ");
        let lines = usize_decimal(self.line_starts.len());
        text.append(lines.as_str());
        text.append(", len: ");
        let len = usize_decimal(self.len);
        text.append(len.as_str());
        text.append(" }");
        text
    }

    /// Convert a byte position into a 1-based `(line, column)`, the column
    /// counted in bytes from the line start. Returns `None` for a position past
    /// EOF.
    pub fn line_column(&self, offset: BytePos) -> (r: Option<(usize, usize)>)
        ensures
            r is Some <==> offset@ <= self.len(),
            r matches Some((line, column)) ==> {
                &&& holds_offset(self.starts(), line - 1, offset@ as int)
                &&& 1 <= line <= self.starts().len()
                &&& self.starts()[line - 1] <= offset@
                &&& (line == self.starts().len() || offset@ < self.starts()[line as int])
                &&& column == offset@ - self.starts()[line - 1] + 1
            },
    {
        proof {
            use_type_invariant(self);
        }
        match self.line_for_offset(offset) {
            None => None,
            Some(line) => {
                let start = self.line_starts[line];
                let column = offset.to_usize() - start;
                Some((line + 1, column + 1))
            },
        }
    }
}

/// Every entry of [`terminator_ends`] is one past a byte that ends a line, and
/// every byte that ends a line among the first `n` has its entry.
proof fn lemma_terminator_ends_members(b: Seq<u8>, n: int)
    requires
        0 <= n <= b.len(),
        b.len() <= usize::MAX,
    ensures
        forall|k: int|
            0 <= k < terminator_ends(b, n).len() ==> ends_line(
                b,
                #[trigger] terminator_ends(b, n)[k] - 1,
            ),
        forall|i: int|
            0 <= i < n && #[trigger] ends_line(b, i) ==> exists|k: int|
                0 <= k < terminator_ends(b, n).len() && terminator_ends(b, n)[k] == i + 1,
    decreases n,
{
    if n > 0 {
        lemma_terminator_ends_members(b, n - 1);
        let prev = terminator_ends(b, n - 1);
        let cur = terminator_ends(b, n);
        if ends_line(b, n - 1) {
            assert forall|k: int| 0 <= k < cur.len() implies ends_line(b, #[trigger] cur[k] - 1) by {
                if k < prev.len() {
                    assert(cur[k] == prev[k]);
                }
            }
            assert forall|i: int| 0 <= i < n && #[trigger] ends_line(b, i) implies exists|k: int|
                0 <= k < cur.len() && cur[k] == i + 1 by {
                if i == n - 1 {
                    assert(cur[prev.len() as int] == i + 1);
                } else {
                    let k = choose|k: int| 0 <= k < prev.len() && prev[k] == i + 1;
                    assert(cur[k] == i + 1);
                }
            }
        }
    }
}

/// The number of lines is one more than the number of line terminators, and
/// bytes with no terminator at all (the empty snapshot included) are one line.
pub proof fn law_num_lines_counts_terminators(b: Seq<u8>)
    requires
        b.len() <= usize::MAX,
    ensures
        line_starts(b).len() == terminator_ends(b, b.len() as int).len() + 1,
        (forall|i: int| 0 <= i < b.len() ==> !ends_line(b, i)) ==> line_starts(b) == seq![0usize],
{
    lemma_terminator_ends_members(b, b.len() as int);
    let t = terminator_ends(b, b.len() as int);
    if forall|i: int| 0 <= i < b.len() ==> !ends_line(b, i) {
        if t.len() > 0 {
            assert(ends_line(b, t[0] - 1));
            lemma_terminator_ends_bounded(b, b.len() as int);
        }
        assert(line_starts(b) =~= seq![0usize]);
    }
}

/// The line ranges tile the snapshot: the first line starts at zero, each
/// line ends where the next one starts, and the last line ends at EOF. So the
/// lines' bytes, taken in order, are the snapshot's bytes, with no gap and no
/// overlap.
pub proof fn law_line_ranges_tile(b: Seq<u8>)
    requires
        b.len() <= usize::MAX,
    ensures
        line_starts(b)[0] == 0,
        forall|line: int|
            0 <= line < line_starts(b).len() ==> line_starts(b)[line] <= #[trigger] line_end(
                line_starts(b),
                b.len(),
                line,
            ),
        forall|line: int|
            0 <= line < line_starts(b).len() - 1 ==> #[trigger] line_end(line_starts(b), b.len(), line)
                == line_starts(b)[line + 1],
        line_end(line_starts(b), b.len(), line_starts(b).len() - 1) == b.len(),
        forall|line: int|
            0 <= line < line_starts(b).len() ==> b.subrange(0, line_starts(b)[line] as int) + b.subrange(
                line_starts(b)[line] as int,
                #[trigger] line_end(line_starts(b), b.len(), line) as int,
            ) == b.subrange(0, line_end(line_starts(b), b.len(), line) as int),
{
    lemma_line_starts_valid(b);
    let s = line_starts(b);
    assert forall|line: int| 0 <= line < s.len() implies s[line] <= #[trigger] line_end(s, b.len(), line) by {
        if line + 1 < s.len() {
            assert(s[line] < s[line + 1]);
        }
    }
    assert forall|line: int| 0 <= line < s.len() implies b.subrange(0, s[line] as int) + b.subrange(
        s[line] as int,
        #[trigger] line_end(s, b.len(), line) as int,
    ) == b.subrange(0, line_end(s, b.len(), line) as int) by {
        assert(s[line] <= line_end(s, b.len(), line) <= b.len());
        assert(b.subrange(0, s[line] as int) + b.subrange(
            s[line] as int,
            line_end(s, b.len(), line) as int,
        ) =~= b.subrange(0, line_end(s, b.len(), line) as int));
    }
}

/// Every terminator stays with the line it ends: a line holds no terminator
/// but its last byte, and every line but the last ends with one.
pub proof fn law_lines_end_at_terminators(b: Seq<u8>, line: int)
    requires
        b.len() <= usize::MAX,
        0 <= line < line_starts(b).len(),
    ensures
        forall|i: int|
            line_starts(b)[line] <= i && i + 1 < line_end(line_starts(b), b.len(), line) ==> !ends_line(
                b,
                i,
            ),
        line + 1 < line_starts(b).len() ==> ends_line(
            b,
            line_end(line_starts(b), b.len(), line) - 1,
        ),
{
    lemma_line_starts_valid(b);
    lemma_terminator_ends_members(b, b.len() as int);
    lemma_terminator_ends_bounded(b, b.len() as int);
    let s = line_starts(b);
    let t = terminator_ends(b, b.len() as int);
    let end = line_end(s, b.len(), line);
    assert forall|i: int| s[line] <= i && i + 1 < end implies !ends_line(b, i) by {
        if ends_line(b, i) {
            assert(0 <= i < b.len());
            let k = choose|k: int| 0 <= k < t.len() && t[k] == i + 1;
            assert(s[k + 1] == i + 1);
            if k + 1 <= line {
                assert(s[k + 1] <= s[line]);
            } else if line + 1 < s.len() {
                assert(s[line + 1] <= s[k + 1]);
            } else {
                assert(s[k + 1] <= b.len());
            }
        }
    }
    if line + 1 < s.len() {
        assert(s[line + 1] == t[line]);
        assert(ends_line(b, t[line] - 1));
    }
}

/// At most one line holds a given offset: the line that `line_for_offset`
/// answers is the one whose number `line_column` reports.
pub proof fn law_one_line_holds_an_offset(
    starts: Seq<usize>,
    len: nat,
    first: int,
    second: int,
    offset: int,
)
    requires
        valid_starts(starts, len),
        holds_offset(starts, first, offset),
        holds_offset(starts, second, offset),
    ensures
        first == second,
{
    if first < second {
        assert(starts[first + 1] <= starts[second]);
    } else if second < first {
        assert(starts[second + 1] <= starts[first]);
    }
}

/// Every offset up to EOF is held by a line of a valid table.
pub proof fn law_every_offset_has_a_line(starts: Seq<usize>, len: nat, offset: int)
    requires
        valid_starts(starts, len),
        0 <= offset <= len,
    ensures
        exists|line: int| holds_offset(starts, line, offset),
    decreases starts.len(),
{
    let last = starts.len() - 1;
    if starts[last] <= offset {
        assert(holds_offset(starts, last, offset));
    } else {
        let shorter = starts.drop_last();
        assert(valid_starts(shorter, len)) by {
            assert(shorter[0] == starts[0]);
        }
        law_every_offset_has_a_line(shorter, len, offset);
        let line = choose|line: int| holds_offset(shorter, line, offset);
        assert(holds_offset(starts, line, offset)) by {
            if line + 1 == shorter.len() {
                assert(line + 1 == last);
            }
        }
    }
}

/// Where lines start, said in the bytes' own terms: the first line starts at
/// zero, the starts strictly increase, and a line starts just past byte `i`
/// exactly when byte `i` is a `\n`, or a `\r` that is not followed by a `\n`,
/// wherever in the snapshot it stands. A `\r\n` pair is one terminator: no
/// line starts between its two bytes.
pub proof fn law_line_starts_follow_the_terminators(b: Seq<u8>)
    requires
        b.len() <= usize::MAX,
    ensures
        line_starts(b)[0] == 0,
        forall|i: int, j: int| 0 <= i < j < line_starts(b).len() ==> line_starts(b)[i] < line_starts(b)[j],
        forall|i: int|
            #![trigger b[i]]
            0 <= i < b.len() ==> (line_starts(b).contains((i + 1) as usize) <==> (b[i] == LF || (b[i]
                == CR && !(i + 1 < b.len() && b[i + 1] == LF)))),
        forall|i: int|
            #![trigger b[i]]
            0 <= i && i + 1 < b.len() && b[i] == CR && b[i + 1] == LF ==> !line_starts(b).contains(
                (i + 1) as usize,
            ),
        forall|k: int| 0 < k < line_starts(b).len() ==> 0 < #[trigger] line_starts(b)[k] <= b.len(),
{
    lemma_line_starts_valid(b);
    lemma_terminator_ends_members(b, b.len() as int);
    lemma_terminator_ends_bounded(b, b.len() as int);
    let s = line_starts(b);
    let t = terminator_ends(b, b.len() as int);
    assert forall|k: int| 0 < k < s.len() implies 0 < #[trigger] s[k] <= b.len() by {
        assert(s[k] == t[k - 1]);
    }
    assert forall|i: int| #![trigger b[i]] 0 <= i < b.len() implies (s.contains((i + 1) as usize) <==> (b[i] == LF || (
    b[i] == CR && !(i + 1 < b.len() && b[i + 1] == LF)))) by {
        if s.contains((i + 1) as usize) {
            let k = choose|k: int| 0 <= k < s.len() && s[k] == (i + 1) as usize;
            assert(k > 0);
            assert(s[k] == t[k - 1]);
            assert(ends_line(b, t[k - 1] - 1));
        }
        if ends_line(b, i) {
            let k = choose|k: int| 0 <= k < t.len() && t[k] == i + 1;
            assert(s[k + 1] == t[k]);
        }
    }
    assert forall|i: int| #![trigger b[i]] 0 <= i && i + 1 < b.len() && b[i] == CR && b[i + 1] == LF implies !s.contains(
        (i + 1) as usize,
    ) by {
        assert(!ends_line(b, i));
    }
}

/// The line that holds an offset, said in the table's own terms: the last
/// line whose start is at or before the offset. In particular every line's
/// start belongs to that line, and a line holds no offset at or past the
/// next line's start.
pub proof fn law_an_offset_belongs_to_the_last_line_starting_at_or_before_it(
    starts: Seq<usize>,
    len: nat,
    line: int,
    offset: int,
)
    requires
        valid_starts(starts, len),
        0 <= line < starts.len(),
    ensures
        holds_offset(starts, line, offset) <==> (starts[line] <= offset && (line + 1 == starts.len()
            || offset < starts[line + 1])),
        holds_offset(starts, line, starts[line] as int),
        line + 1 < starts.len() ==> !holds_offset(starts, line, starts[line + 1] as int),
        line + 1 < starts.len() ==> holds_offset(starts, line + 1, starts[line + 1] as int),
{
}

} // verus!
