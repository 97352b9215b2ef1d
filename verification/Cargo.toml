[package]
name = "btc"
version = "0.1.0"
edition = "2021"
publish = false

[dependencies]
byteorder = "1"
rust-crypto = "0.2"
hex = "0.3"
chrono = "0.4"
rand = "0.5"
tokio = "0.1"
futures = "0.1"
bytes = "0.4"
log = "0.4"
fern = "0.5"
structopt = "0.2"
