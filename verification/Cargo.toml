[package]
name = "commitlog"
version = "0.1.0"
edition = "2021"
publish = false

[dependencies]
ansi-to-tui = "=8.0.1"
anyhow = "1"
backtrace = "0.3"
chrono = { version = "0.4", default-features = false, features = ["clock"] }
crossbeam-channel = "0.5"
crossterm = "=0.29.0"
dirs = "6"
git2 = { version = "=0.21.0", default-features = false }
gix = { version = "=0.90.0", default-features = false, features = ["revision", "sha1"] }
gleisbau = "=0.7.5"
indexmap = "=2.14.2"
log = "0.4"
ratatui = "=0.30.2"
rayon-core = "1"
scopeguard = "1"
simplelog = "0.12"
