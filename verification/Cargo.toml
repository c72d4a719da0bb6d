[package]
name = "release_assets"
version = "0.1.0"
edition = "2021"
publish = false

[dependencies]
anyhow = "1"
blake2 = "0.10"
camino = "1"
cargo_metadata = "0.15"
clap = { version = "3", features = ["derive", "env"] }
envy = "0.4"
flate2 = "1"
globset = "0.4"
heck = "0.4"
hex = "0.4"
once_cell = "1"
rayon = "1"
serde = { version = "1", features = ["derive"] }
serde_with = "2"
sha2 = "0.10"
tar = "0.4"
target-lexicon = "0.12"
tempfile = "3"
time = "0.3"
tracing = "0.1"
tracing-subscriber = "0.3"
ureq = { version = "2", features = ["json"] }
which = "4"
zip = { version = "0.6", default-features = false, features = ["deflate"] }
