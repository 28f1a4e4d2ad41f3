# mmap_cursor

A zero-copy byte-position reader for parsers and lexers of large files,
verified with Verus.

- `src/` is the verified library: `BytePos` and `ByteRange` (`position.rs`),
  the byte `Cursor` (`cursor.rs`), the `LineIndex` from positions to
  `(line, column)` and from lines to byte ranges (`line_index.rs`), the
  memory-mapped `ByteFile` snapshot (`bytefile.rs`), the `Error` type
  (`error.rs`) and the decimal renderings they share (`text.rs`). Public
  functions state their results in their `ensures`, except where a result
  rests on the operating system (the message of an I/O error); the properties
  that relate several functions are the `law_*` proof functions.
- `app/` opens a path into a `ByteFile` (file and mapping calls), and carries
  the `Display`/`std::error::Error` and `serde::Serialize` impls that the
  library's types leave to it.
- `tests/` runs the library on concrete inputs.
