[package]
name = "isq"
version = "0.1.0"
edition = "2021"
publish = false

[dependencies]
anyhow = "=1.0.104"
async-trait = "=0.1.92"
base64 = "=0.22.1"
chrono = "=0.4.45"
clap = { version = "=4.6.7", features = ["derive"] }
colored = "=3.1.1"
directories = "=6.0.0"
futures = "=0.3.34"
gix = { version = "=0.90.0", default-features = false, features = ["sha1"] }
keyring = "=4.2.0"
libc = "=0.2.191"
once_cell = "=1.21.4"
open = "=5.4.5"
rand = "=0.8.8"
reqwest = { version = "=0.12.28", default-features = false, features = ["json", "rustls-tls"] }
rusqlite = { version = "=0.40.2", features = ["bundled"] }
serde = { version = "=1.0.229", features = ["derive"] }
serde_json = "=1.0.154"
sha2 = "=0.10.9"
terminal_size = "=0.4.4"
textwrap = "=0.16.4"
tokio = { version = "=1.54.1", features = ["rt-multi-thread", "macros", "sync", "time"] }
