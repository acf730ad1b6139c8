[package]
name = "dump1090_rs"
version = "0.1.0"
edition = "2021"
publish = false

[dependencies]
hex = "0.4"
clap = { version = "4", features = ["derive"] }
serde = { version = "1", features = ["derive"] }
toml = "0.8"
num-complex = "0.4"
byteorder = "1"
libc = "0.2"
soapysdr = "0.4"
