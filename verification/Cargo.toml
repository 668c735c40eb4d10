[package]
name = "tinyboot"
version = "0.1.0"
edition = "2021"
publish = false

[dependencies]
anyhow = "1"
argh = "0.1"
bootspec = "*"
clap = { version = "4", features = ["derive"] }
fern = "0.6"
futures = "0.3"
glob = "0.3"
log = "0.4"
nix = "0.26"
serde = { version = "1", features = ["derive"] }
serde_json = "1"
termion = "2"
termios = "0.3"
thiserror = "1"
tokio = { version = "1", features = ["rt-multi-thread", "macros", "net", "sync", "time", "fs", "io-util"] }
tokio-serde-cbor = "*"
tokio-util = { version = "0.7", features = ["codec"] }
