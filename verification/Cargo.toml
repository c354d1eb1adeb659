[package]
name = "revelation"
version = "0.1.0"
edition = "2021"
publish = false

[dependencies]
anyhow = "=1.0.104"
clap = { version = "=4.6.7", features = ["derive"] }
csv = "=1.4.0"
evtx = "=0.12.3"
git2 = { version = "=0.21.0", default-features = false }
goblin = "=0.10.7"
hex = "=0.4.3"
rayon = "=1.12.0"
serde = { version = "=1.0.229", features = ["derive"] }
serde_json = "=1.0.151"
sha2 = "=0.11.0"
sigma-rust = "=0.7.0"
time = { version = "=0.3.55", features = ["formatting"] }
walkdir = "=2.5.0"
yara = { version = "=0.32.0", default-features = false, features = ["vendored", "bundled-4_5_5", "ndebug"] }
