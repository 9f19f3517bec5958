[package]
name = "pragmatic_segmenter"
version = "0.1.0"
edition = "2021"
publish = false

[dependencies]
aho-corasick = "1"
onig = { version = "6", default-features = false }
unic-ucd-case = "0.9"
