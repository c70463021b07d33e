[package]
name = "usync"
version = "0.1.0"
edition = "2021"
publish = false

[dependencies]
anyhow = "=1.0.104"
async-trait = "=0.1.92"
blake3 = "=1.8.7"
bytes = "=1.12.1"
clap = { version = "=4.6.7", features = ["derive"] }
crc = "=3.4.0"
directories = "=5.0.1"
ed25519-dalek = "=2.2.0"
flume = "=0.11.1"
hex = "=0.4.3"
humansize = "=2.1.3"
memmap2 = "=0.9.12"
page_size = "=0.6.0"
rand = "=0.9.5"
raptorq = "=2.0.1"
serde = { version = "=1.0.229", features = ["derive"] }
socket2 = "=0.5.10"
tokio = { version = "=1.54.1", features = ["full"] }
toml = "=0.8.23"
