[package]
name = "universal_launcher"
version = "0.1.0"
edition = "2021"
publish = false

[dependencies]
evalexpr = "11"
fuzzy-matcher = "0.3"
rdev = "0.5"
arboard = { version = "3", default-features = false }
auto-launch = "0.5"
chrono = { version = "0.4", default-features = false, features = ["clock"] }
dirs = "5"
open = "5"
walkdir = "2"
serde = { version = "1", features = ["derive"] }
serde_json = "1"
winapi = { version = "0.3", features = ["sysinfoapi", "winbase", "fileapi", "winnt"] }
