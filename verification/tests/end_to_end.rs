//! End-to-end reading: a snapshot walked with a [`Cursor`] and resolved with a
//! [`LineIndex`]. The snapshots here are memory mappings filled at test time, so
//! every line terminator is exactly the byte written.

use mmap_cursor::{ByteFile, BytePos, ByteRange, Mapping};

/// The mixed-terminator document the tests below share.
///
/// | line | bytes | terminator |
/// | --- | --- | --- |
/// | 1 | `alpha` | `\n` |
/// | 2 | `b` `é` `ta` | `\r\n` |
/// | 3 | *(empty)* | lone `\r` |
/// | 4 | `gamma` | lone `\r` |
/// | 5 | `delta` | none |
fn mixed_document() -> Vec<u8> {
    let mut doc = Vec::new();
    doc.extend_from_slice(b"alpha\n"); //          line 1: LF
    doc.extend_from_slice(b"b\xC3\xA9ta\r\n"); //  line 2: CRLF, with 2-byte é
    doc.extend_from_slice(b"\r"); //               line 3: empty, lone CR
    doc.extend_from_slice(b"gamma\r"); //          line 4: lone CR
    doc.extend_from_slice(b"delta"); //            line 5: no terminator
    assert_eq!(doc.len(), 25, "the hand-written offsets assume 25 bytes");
    doc
}

/// A snapshot holding exactly `bytes`, mapped the way a file of that length is.
fn open_document(bytes: &[u8]) -> ByteFile {
    match ByteFile::mapping_for(bytes.len() as u64).unwrap() {
        Mapping::Empty => ByteFile::empty_snapshot(),
        Mapping::Whole { len } => {
            let mut map = memmap2::MmapMut::map_anon(len).unwrap();
            map.copy_from_slice(bytes);
            ByteFile::from_mapping(map.make_read_only().unwrap())
        }
    }
}

#[test]
fn a_cursor_over_a_snapshot_starts_at_the_beginning() {
    let doc = mixed_document();
    let file = open_document(&doc);

    let mut cursor = file.cursor();
    assert_eq!(cursor.position(), BytePos::zero());
    assert_eq!(cursor.peek(), Some(b'a'));
    assert_eq!(cursor.peek_n_ahead(0), Some(b'a'));
    assert_eq!(cursor.remaining_len(), doc.len());
    assert_eq!(cursor.rest(), Some(doc.as_slice()));

    // Reading the whole snapshot in one call lands exactly on EOF.
    assert_eq!(cursor.slice_n_ahead(doc.len()), Some(doc.as_slice()));
    assert!(cursor.is_eof());
    assert_eq!(cursor.position().to_usize(), doc.len());
    assert_eq!(cursor.remaining_len(), 0);
    assert_eq!(cursor.rest(), None);
}

#[test]
fn reading_the_snapshot_in_order_reproduces_the_file() {
    let doc = mixed_document();
    let file = open_document(&doc);

    let mut cursor = file.cursor();
    let mut collected = Vec::new();
    while let Some(chunk) = cursor.slice_n_ahead(3) {
        collected.extend_from_slice(chunk);
    }

    assert_eq!(collected, doc);
    assert!(cursor.is_eof());
    assert_eq!(cursor.remaining_len(), 0);
    // Past EOF the answer stays `None` instead of panicking.
    assert_eq!(cursor.slice_n_ahead(1), None);
    assert_eq!(cursor.peek(), None);
}

#[test]
fn an_advancing_walk_reproduces_the_snapshot_byte_for_byte() {
    let doc = mixed_document();
    let file = open_document(&doc);

    let mut cursor = file.cursor();
    let mut collected = Vec::with_capacity(doc.len());
    while let Some(byte) = cursor.peek() {
        collected.push(byte);
        cursor.advance();
    }
    assert_eq!(collected, doc);
    assert!(cursor.is_eof());
    assert_eq!(cursor.position().to_usize(), doc.len());

    // Advancing at EOF clamps to EOF, even for a step larger than the whole
    // address space.
    cursor.advance();
    assert_eq!(cursor.position().to_usize(), doc.len());
    cursor.advance_n_ahead(usize::MAX);
    assert_eq!(cursor.position().to_usize(), doc.len());

    // ...and the same oversized step taken from the start lands on EOF too.
    let mut fresh = file.cursor();
    fresh.advance_n_ahead(usize::MAX);
    assert!(fresh.is_eof());
    assert_eq!(fresh.position().to_usize(), doc.len());
}

#[test]
fn oversized_read_requests_saturate_at_eof() {
    let doc = mixed_document();
    let file = open_document(&doc);

    let mut cursor = file.cursor();
    cursor.seek(BytePos::new(8));
    assert_eq!(cursor.peek_n_ahead(usize::MAX), None);
    assert_eq!(cursor.position().to_usize(), 8, "peek must not move");

    let mut cursor = file.cursor();
    assert_eq!(cursor.slice_n_ahead(usize::MAX), Some(doc.as_slice()));
    assert!(cursor.is_eof());
    assert_eq!(cursor.position().to_usize(), doc.len());
    assert_eq!(cursor.remaining_len(), 0);
    assert_eq!(cursor.slice_n_ahead(usize::MAX), None); // already at EOF
}

#[test]
fn delimiter_scans_advance_through_the_snapshot() {
    let doc = b"HEADER;\nENDSEC;\nDATA;";
    let file = open_document(doc);
    let mut cursor = file.cursor();

    let mut fields = Vec::new();
    loop {
        let start = cursor.position();
        cursor.advance_to(b';');
        assert_eq!(cursor.peek(), Some(b';'), "the stop byte stays unconsumed");
        fields.push(
            cursor
                .slice(ByteRange::new(start, cursor.position()))
                .expect("the scanned field is inside the snapshot")
                .to_vec(),
        );

        cursor.advance_through(b';');
        if !cursor.advance_if_starts_with(b"\n") {
            break;
        }
    }

    assert!(cursor.is_eof());
    assert_eq!(
        fields,
        [b"HEADER".to_vec(), b"ENDSEC".to_vec(), b"DATA".to_vec()]
    );

    // At EOF every scan is a no-op, and nothing matches, not even the empty
    // prefix.
    let at_eof = cursor.position();
    assert!(!cursor.advance_if_starts_with(b""));
    assert!(!cursor.advance_if_starts_with(b"\n"));
    cursor.advance_until(|_| true);
    cursor.advance_to(b';');
    cursor.advance_through(b';');
    assert_eq!(cursor.position(), at_eof);
}

#[test]
fn line_ranges_slice_the_actual_line_bytes() {
    let doc = mixed_document();
    let file = open_document(&doc);
    let index = file.line_index();
    let cursor = file.cursor();

    let expected: [&[u8]; 5] = [b"alpha\n", b"b\xC3\xA9ta\r\n", b"\r", b"gamma\r", b"delta"];
    assert_eq!(index.num_lines(), expected.len());

    for (line, want) in expected.iter().enumerate() {
        let range = index.line_range(line).expect("line is in range");
        assert_eq!(
            range.start(),
            index.line_start(line).unwrap(),
            "line {line}"
        );
        assert_eq!(range.len(), want.len(), "line {line}");
        assert_eq!(cursor.slice(range), Some(*want), "line {line}");
    }
    assert_eq!(index.line_range(expected.len()), None);

    let mut rebuilt = Vec::with_capacity(doc.len());
    for line in 0..index.num_lines() {
        rebuilt.extend_from_slice(cursor.slice(index.line_range(line).unwrap()).unwrap());
    }
    assert_eq!(rebuilt, doc);
}

#[test]
fn the_line_index_over_mixed_terminators_is_fully_specified() {
    let doc = mixed_document();
    let file = open_document(&doc);
    let index = file.line_index();

    let starts: [usize; 5] = [0, 6, 13, 14, 20];
    assert_eq!(index.num_lines(), starts.len());

    for offset in 0..doc.len() {
        let line = index.line_for_offset(BytePos::new(offset)).unwrap();
        let start = starts[line];
        let end = starts.get(line + 1).copied().unwrap_or(doc.len());
        assert!(
            start <= offset && offset < end,
            "offset {offset} -> line {line}"
        );
    }
    assert_eq!(index.line_for_offset(BytePos::new(doc.len() + 1)), None);
}

#[test]
fn a_position_resolves_back_to_its_line_and_column() {
    let doc = mixed_document();
    let file = open_document(&doc);
    let index = file.line_index();

    let cases: &[(usize, usize, usize)] = &[
        (0, 1, 1),
        (4, 1, 5),
        (5, 1, 6), // the LF belongs to line 1
        (6, 2, 1),
        (8, 2, 3),  // the second byte of é: columns count bytes
        (11, 2, 6), // the CR of the CRLF pair ...
        (12, 2, 7), // ... and its LF both belong to line 2
        (13, 3, 1), // the empty line's lone CR
        (14, 4, 1),
        (19, 4, 6), // the lone CR terminating "gamma"
        (20, 5, 1),
        (24, 5, 5),
        (25, 5, 6), // EOF: one past the last byte, still inside line 5
    ];

    for &(offset, line, column) in cases {
        assert_eq!(
            index.line_column(BytePos::new(offset)),
            Some((line, column)),
            "offset {offset}"
        );

        let start = index.line_start(line - 1).expect("line is in range");
        assert_eq!(offset - start.to_usize() + 1, column, "offset {offset}");
        assert_eq!(
            index.line_for_offset(BytePos::new(offset)),
            Some(line - 1),
            "offset {offset}"
        );

        let mut probe = file.cursor();
        probe.seek(BytePos::new(offset));
        assert_eq!(probe.peek(), doc.get(offset).copied(), "offset {offset}");
        assert_eq!(probe.remaining_len(), doc.len() - offset, "offset {offset}");
    }

    assert_eq!(index.line_column(BytePos::new(doc.len() + 1)), None);
    assert_eq!(index.line_for_offset(BytePos::new(doc.len() + 1)), None);
    assert_eq!(index.line_start(index.num_lines()), None);
}

#[test]
fn columns_are_counted_in_bytes_not_characters() {
    let doc = b"\xC3\xA9\n";
    let file = open_document(doc);
    let index = file.line_index();

    assert_eq!(file.len(), 3);
    assert_eq!(index.line_column(BytePos::zero()), Some((1, 1)));
    assert_eq!(index.line_column(BytePos::new(1)), Some((1, 2)));
    assert_eq!(index.line_column(BytePos::new(2)), Some((1, 3))); // the LF
    assert_eq!(index.line_column(BytePos::new(3)), Some((2, 1))); // final empty line

    let cursor = file.cursor();
    assert_eq!(
        cursor.slice(ByteRange::new(BytePos::zero(), BytePos::new(2))),
        Some(&b"\xC3\xA9"[..])
    );
    assert_eq!(
        cursor.slice(ByteRange::new(BytePos::new(1), BytePos::new(2))),
        Some(&b"\xA9"[..])
    );
    assert_eq!(cursor.slice(BytePos::new(1).as_range()), Some(&b""[..]));
}

#[test]
fn seeking_around_a_multi_megabyte_snapshot_reads_the_expected_bytes() {
    const LEN: usize = 2 * 1024 * 1024 + 3;
    let doc: Vec<u8> = (0..LEN).map(|i| (i % 251) as u8).collect();
    let file = open_document(&doc);

    let mut cursor = file.cursor();
    for offset in [
        0,
        1,
        4095,
        4096,
        4097,
        LEN / 3,
        LEN / 2,
        LEN - 8,
        0,
        LEN - 1,
    ] {
        cursor.seek(BytePos::new(offset));
        assert_eq!(cursor.position(), BytePos::new(offset), "offset {offset}");

        let end = (offset + 8).min(LEN);
        assert_eq!(
            cursor.slice_n_ahead(8),
            Some(&doc[offset..end]),
            "offset {offset}"
        );
        assert_eq!(cursor.position(), BytePos::new(end), "offset {offset}");
        assert_eq!(cursor.remaining_len(), LEN - end, "offset {offset}");
    }

    let lf = doc.iter().filter(|&&byte| byte == b'\n').count();
    let cr = doc.iter().filter(|&&byte| byte == b'\r').count();
    let crlf = doc.windows(2).filter(|pair| *pair == b"\r\n").count();
    assert_eq!(crlf, 0, "the pattern must not form CRLF pairs here");
    assert_eq!(file.line_index().num_lines(), lf + cr + 1);

    for offset in [0, LEN / 2, LEN - 1, LEN] {
        let mut probe = file.cursor();
        probe.seek(BytePos::new(offset));
        let debug = probe.debug_string();
        assert!(debug.len() < 256, "offset {offset} produced {debug:?}");
    }
}
