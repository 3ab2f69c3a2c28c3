[package]
name = "cargo_e"
version = "0.1.0"
edition = "2021"
publish = false

[dependencies]
regex = "1"
nu-ansi-term = "0.50"
comfy-table = "7"
toml = "0.8"
anyhow = "1"
clap = { version = "4", features = ["derive"] }
which = "*"
ctrlc = "3"
open = "5"
chrono = "0.4"
sysinfo = "*"
nix = { version = "*", features = ["signal", "process"] }
libc = "0.2"
once_cell = "1"
dashmap = "*"
crossterm = "*"
threadpool = "1"
log = "0.4"
serde_json = "1"
cargo_metadata = "*"
git2 = "*"
