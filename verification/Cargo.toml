[package]
name = "git_leave"
version = "0.1.0"
edition = "2021"
publish = false

[dependencies]
git2 = "0.14"
clap = { version = "3", features = ["derive"] }
yansi = "0.5"

[dev-dependencies]
tempfile = "3"
