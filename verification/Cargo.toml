[package]
name = "librefork"
version = "0.1.0"
edition = "2021"
publish = false

[dependencies]
anyhow = "1"
chrono = { version = "0.4", features = ["unstable-locales"] }
dirs = "*"
git2 = { version = "*", default-features = false }
glib = "*"
gtk4 = "*"
libadwaita = "*"
rusqlite = { version = "*", features = ["bundled"] }
time = { version = "0.3", features = ["formatting"] }
