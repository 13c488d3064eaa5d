[package]
name = "armor"
version = "0.1.0"
edition = "2021"
publish = false

[dependencies]
sequoia-openpgp = { version = "1", default-features = false, features = ["crypto-rust", "allow-experimental-crypto", "allow-variable-time-crypto", "compression-deflate"] }
chrono = { version = "0.4", default-features = false, features = ["std", "alloc", "clock"] }
rusqlite = { version = "0.31", features = ["bundled"] }
serde = { version = "1", features = ["derive"] }
serde_json = "1"
directories = "5"
