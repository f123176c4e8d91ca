[package]
name = "analyzer"
version = "0.1.0"
edition = "2021"
publish = false

[dependencies]
anyhow = "*"
bitmatrix = "=0.1.0"
clap = "=4.6.7"
dci = { version = "=0.3.0", features = ["matrix"] }
log = "*"
simplelog = "=0.12.2"
