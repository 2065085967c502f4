[package]
name = "net-traffic-capture"
version = "0.1.0"
edition = "2021"
publish = false

[dependencies]
anyhow = "1"
clap = { version = "4", features = ["derive"] }
etherparse = "0.13"
go-parse-duration = "0.1"
libc = "0.2"
memmap2 = "0.9"
page_size = "0.6"
pcap = "1"
questdb-rs = "*"
