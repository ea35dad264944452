[package]
name = "archive_to_parquet"
version = "0.1.0"
edition = "2021"
publish = false

[dependencies]
infer = "*"
flate2 = "*"
tar = "*"
zip = { version = "*", default-features = false, features = ["deflate"] }
sha2 = "*"
simdutf8 = "*"
arrow = "*"
parquet = { version = "*", default-features = false, features = ["arrow"] }
clap = { version = "*", features = ["derive"] }
anyhow = "*"
rayon = "*"
walkdir = "*"
byte-unit = "*"
