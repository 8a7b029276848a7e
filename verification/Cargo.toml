[package]
name = "setochka"
version = "0.1.0"
edition = "2021"
publish = false

[dependencies]
bit-vec = "*"
rusqlite = { version = "*", features = ["bundled"] }
rusqlite_migration = "*"
log = "*"
env_filter = "*"
anyhow = "*"
jiff = "*"
tiny_http = "*"
minijinja = "*"
serde = { version = "*", features = ["derive"] }
serde_urlencoded = "*"
xattr = "*"
parking_lot = "*"
bstr = "*"
thiserror = "*"
