[package]
name = "hymnal-core"
version = "0.1.0"
edition = "2021"
publish = false

[dependencies]
anyhow = "1"
bincode = "1"
directories = "5"
dirs = "5"
git2 = { version = "0.19", default-features = false }
log = "0.4"
nucleo-matcher = "0.3"
quick-xml = "0.31"
self_update = { version = "0.41", features = ["archive-tar", "compression-flate2"] }
serde = { version = "1", features = ["derive"] }
serde_json = "1"
sys-locale = "0.3"
tar = "0.4"
toml = "0.8"
ureq = "2"
walkdir = "2"
xz2 = "0.1"
zip = { version = "2", default-features = false, features = ["deflate"] }

[dev-dependencies]
tempfile = "3"
