[package]
name = "mmap_cursor"
version = "0.1.1"
edition = "2021"
publish = false

[dependencies]
memchr = "2"
memmap2 = "0.9"
serde = { version = "1", features = ["derive"] }
