[package]
name = "shepherdr"
version = "0.1.0"
edition = "2021"
publish = false

[dependencies]
bytesize = "2"
chrono = "0.4"
libc = "0.2"
log = { version = "0.4", features = ["std"] }
nix = { version = "0.30", features = ["process", "signal", "user"] }
rustc-hash = "2"
serde = { version = "1", features = ["derive"] }
thiserror = "2"
tokio = { version = "1", features = ["fs", "io-util", "macros", "process", "rt-multi-thread", "sync", "time"] }
toml = "0.9"
