[package]
name = "stackenv"
version = "0.1.0"
edition = "2021"
publish = false

[dependencies]
anyhow = "1"
clap = { version = "4", features = ["derive"] }
console = "*"
dialoguer = "*"
dirs = "*"
dotenvy = "0.15"
serde = { version = "1", features = ["derive"] }
serde_json = "1"
shell-words = "1"
sysinfo = "*"
toml = "*"
toml_edit = "*"
ureq = { version = "3", features = ["json"] }
zip = { version = "*", default-features = false, features = ["deflate"] }
