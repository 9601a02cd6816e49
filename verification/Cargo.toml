[package]
name = "volt"
version = "0.1.0"
edition = "2021"
publish = false

[dependencies]
ssri = "=7.0.0"
node-semver = "=2.2.0"
git-config = "=0.1.11"
rust-lzma = "*"
libdeflater = "=1.26.1"
tar = "=0.4.46"
cacache = "=13.1.0"
clap = { version = "=3.2.25", features = ["derive"] }
colored = "=2.2.0"
dirs = "=4.0.0"
tokio = { version = "=1.54.1", features = ["macros", "rt-multi-thread", "fs"] }
reqwest = { version = "=0.11.27", default-features = false, features = ["json", "rustls-tls"] }
isahc = "=1.8.3"
speedy = "=0.8.7"
serde = { version = "=1.0.229", features = ["derive"] }
serde_json = "=1.0.154"
indicatif = "0.17"
tempfile = "=3.27.0"
futures = "=0.3.34"
bytes = "=1.12.1"
winapi = { version = "=0.3.9", features = ["consoleapi", "errhandlingapi", "fileapi", "handleapi", "winnt"] }
