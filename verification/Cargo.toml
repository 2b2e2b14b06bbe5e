[package]
name = "profinet_rs"
version = "0.1.0"
edition = "2021"
publish = false

[dependencies]
clap = { version = "4", features = ["derive"] }
ctrlc = { version = "3", features = ["termination"] }
getrandom = "0.3"
mac_address = "1"
pcap = "2"
serde_json = "1"
socket2 = "0.5"
