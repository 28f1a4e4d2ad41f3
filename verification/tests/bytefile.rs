//! [`ByteFile`] snapshots. Each snapshot here is a memory mapping filled with
//! the bytes a file would hold and handed over as that file's mapping would
//! be, so the snapshot's side of opening a file runs without the filesystem.

use mmap_cursor::{ByteFile, BytePos, ByteRange, Error, Mapping};

/// The snapshot of a file holding `bytes`: nothing mapped for the empty file,
/// otherwise a mapping of exactly `bytes.len()` bytes.
fn snapshot_of(bytes: &[u8]) -> ByteFile {
    match ByteFile::mapping_for(bytes.len() as u64).unwrap() {
        Mapping::Empty => ByteFile::empty_snapshot(),
        Mapping::Whole { len } => {
            let mut map = memmap2::MmapMut::map_anon(len).unwrap();
            map.copy_from_slice(bytes);
            ByteFile::from_mapping(map.make_read_only().unwrap())
        }
    }
}

#[test]
fn opens_a_file_and_exposes_its_bytes() {
    let content = b"ISO-10303-21;\nHEADER;\nENDSEC;\n";
    let file = snapshot_of(content);

    assert_eq!(file.len(), content.len());
    assert!(!file.is_empty());
    assert_eq!(file.bytes(), content);
}

#[test]
fn preserves_binary_content_that_is_not_utf8() {
    let content: Vec<u8> = vec![0x00, 0xFF, 0xFE, 0xC3, 0x28, 0x80, b'\n', 0x00];
    assert!(
        std::str::from_utf8(&content).is_err(),
        "the fixture is meant to be invalid UTF-8"
    );

    let file = snapshot_of(&content);

    assert_eq!(file.len(), content.len());
    assert_eq!(file.bytes(), content.as_slice());
    assert_eq!(file.cursor().peek(), Some(0x00));
    assert_eq!(file.bytes()[3], 0xC3);
    assert_eq!(file.bytes()[4], 0x28);
}

#[test]
fn an_empty_file_is_a_zero_length_snapshot_not_an_error() {
    let file = snapshot_of(b"");

    assert_eq!(file.len(), 0);
    assert!(file.is_empty());
    assert_eq!(file.bytes(), b"");

    let mut cursor = file.cursor();
    assert!(cursor.is_eof());
    assert_eq!(cursor.position(), BytePos::zero());
    assert_eq!(cursor.remaining_len(), 0);
    assert_eq!(cursor.peek(), None);
    assert_eq!(cursor.peek_n_ahead(0), None);
    assert_eq!(cursor.peek_n_ahead(usize::MAX), None);
    assert_eq!(cursor.rest(), None);
    assert_eq!(cursor.slice_n_ahead(0), None);
    assert_eq!(cursor.slice_n_ahead(1), None);
    assert_eq!(cursor.slice_n_ahead(usize::MAX), None);
    assert_eq!(cursor.slice(ByteRange::empty()), Some(&b""[..]));

    let index = file.line_index();
    assert_eq!(index.num_lines(), 1);
    assert_eq!(index.line_for_offset(BytePos::zero()), Some(0));
    assert_eq!(index.line_start(0), Some(BytePos::zero()));
    assert_eq!(index.line_range(0), Some(ByteRange::empty()));
    assert_eq!(index.line_column(BytePos::zero()), Some((1, 1)));
    assert_eq!(index.line_column(BytePos::new(1)), None);
}

#[test]
fn snapshots_at_and_around_a_page_boundary_are_exact() {
    for len in [0usize, 1, 2, 4095, 4096, 4097, 8193] {
        let content: Vec<u8> = (0..len).map(|i| (i % 251) as u8).collect();
        let file = snapshot_of(&content);
        assert_eq!(file.len(), len, "len {len}");
        assert_eq!(file.bytes(), content.as_slice(), "len {len}");
        assert_eq!(file.is_empty(), len == 0, "len {len}");

        if len > 0 {
            let last = ((len - 1) % 251) as u8;
            assert_eq!(file.bytes()[len - 1], last, "len {len}");
            let mut cursor = file.cursor();
            cursor.seek(BytePos::new(len - 1));
            assert_eq!(cursor.peek(), Some(last), "len {len}");
            assert_eq!(cursor.peek_n_ahead(1), None, "len {len}");
        }
    }
}

#[test]
fn a_large_snapshot_matches_the_file_on_disk() {
    const LEN: usize = 1024 * 1024 + 7;
    let content: Vec<u8> = (0..LEN).map(|i| (i % 251) as u8).collect();
    let file = snapshot_of(&content);
    assert_eq!(file.len(), LEN);
    assert_eq!(file.len(), content.len());

    for offset in [0, 1, 4095, 4096, 4097, LEN / 2, LEN - 1] {
        assert_eq!(file.bytes()[offset], content[offset], "offset {offset}");
    }

    let mut cursor = file.cursor();
    cursor.seek(BytePos::new(LEN - 16));
    assert_eq!(cursor.slice_n_ahead(16), Some(&content[LEN - 16..]));
}

#[test]
fn two_snapshots_of_the_same_path_are_independent() {
    let first = snapshot_of(b"shared\n");
    let second = snapshot_of(b"shared\n");
    assert_eq!(first.bytes(), second.bytes());

    drop(first);
    assert_eq!(second.len(), 7);
    assert_eq!(second.bytes(), b"shared\n");
    assert_eq!(second.line_index().num_lines(), 2);
}

#[test]
fn debug_reports_the_length_and_never_the_content() {
    let secret = b"SECRET-MARKER-0123456789";

    let debug = snapshot_of(secret).debug_string();
    assert_eq!(debug, format!("ByteFile {{ len: {} }}", secret.len()));
    assert!(!debug.contains("SECRET"), "{debug}");

    let big = snapshot_of(&vec![b'S'; 1 << 20]);
    assert!(big.debug_string().len() < 64);
}

// --- the decision that opening a file rests on ---

#[test]
fn the_empty_file_maps_to_nothing_and_others_map_whole() {
    assert_eq!(ByteFile::mapping_for(0).unwrap(), Mapping::Empty);
    assert_eq!(ByteFile::mapping_for(1).unwrap(), Mapping::Whole { len: 1 });
    assert_eq!(
        ByteFile::mapping_for(4097).unwrap(),
        Mapping::Whole { len: 4097 }
    );
    if (usize::MAX as u64) == u64::MAX {
        assert_eq!(
            ByteFile::mapping_for(u64::MAX).unwrap(),
            Mapping::Whole { len: usize::MAX }
        );
    } else {
        match ByteFile::mapping_for(u64::MAX) {
            Err(Error::FileTooLarge { len }) => assert_eq!(len, u64::MAX),
            other => panic!("expected FileTooLarge, got {other:?}"),
        }
    }
}

#[test]
fn an_empty_snapshot_needs_no_mapping() {
    let file = ByteFile::empty_snapshot();
    assert_eq!(file.len(), 0);
    assert_eq!(file.bytes(), b"");
    assert_eq!(file.debug_string(), "ByteFile { len: 0 }");
    assert_eq!(file.line_index().num_lines(), 1);
}
