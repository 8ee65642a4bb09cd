[package]
name = "perceive"
version = "0.1.0"
edition = "2021"
publish = false

[dependencies]
flume = "=0.10.14"
url = "=2.5.8"
httpdate = "=1.0.3"
zstd = "=0.12.4"
readability = { version = "=0.2.0", default-features = false }
globset = "=0.4.20"
gray_matter = "=0.2.9"
parking_lot = "=0.12.5"
rayon = "=1.12.0"
reqwest = { version = "=0.11.27", default-features = false, features = ["blocking", "gzip"] }
time = "=0.3.55"
rusqlite = { version = "=0.29.0", features = ["bundled", "array"] }
r2d2 = "=0.8.10"
r2d2_sqlite = "=0.22.0"
rusqlite_migration = "=1.0.2"
serde = { version = "=1.0.229", features = ["derive"] }
serde_json = "=1.0.154"
ignore = "=0.4.33"
tempfile = "=3.27.0"
eyre = "=0.6.14"
thiserror = "=1.0.69"
clap = { version = "=4.6.7", features = ["derive"] }
shlex = "=1.3.0"
shellexpand = "=3.1.2"
directories = "=5.0.1"
hnsw_rs = "=0.1.19"
ndarray = "=0.15.6"
rust-bert = { version = "0.20", default-features = false }
rust_tokenizers = "8"
tch = "0.10"
