[package]
name = "spider"
version = "1.40.0"
edition = "2021"
publish = false

[dependencies]
case_insensitive_string = "0.1"
compact_str = "0.7"
hashbrown = "0.14"
regex = "1"
reqwest = { version = "0.11", default-features = false }
ua_generator = "0.3"
