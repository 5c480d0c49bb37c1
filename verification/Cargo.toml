[package]
name = "lspctl"
version = "0.1.0"
edition = "2021"
publish = false

[dependencies]
atomic-write-file = "0.2"
cap-fs-ext = "3"
cap-std = "3"
directories = "6"
dunce = "1"
getrandom = "0.3"
hex = "0.4"
libc = "0.2"
serde = { version = "1", features = ["derive"] }
serde_json = "1"
sha2 = "0.10"
similar = "2"
time = { version = "0.3", features = ["formatting", "parsing"] }
tokio = { version = "1", features = ["full"] }
toml = "0.8"
url = "2"
which = "7"
xattr = "1"

[dev-dependencies]
tempfile = "3"
