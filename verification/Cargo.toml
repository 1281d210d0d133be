[package]
name = "git_odb"
version = "0.1.0"
edition = "2021"
publish = false

[dependencies]
arc-swap = "=1.9.2"
git-hash = "=0.10.3"
git-pack = "=0.31.0"
thiserror = "=1.0.69"
