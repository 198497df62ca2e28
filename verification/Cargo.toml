[package]
name = "group29_backup"
version = "0.1.0"
edition = "2021"
publish = false

[dependencies]
serde = { version = "1", features = ["derive"] }
toml = "0.8"
dirs = "5"
rayon = "1"
sysinfo = "0.32"
rdev = "0.5"
native-dialog = "0.6"
