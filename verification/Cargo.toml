[package]
name = "nmap_mac_matcher"
version = "0.1.0"
edition = "2021"
publish = false

[dependencies]
clap = "*"
comfy-table = "*"
indexmap = "*"
serde = "*"
serde_json = "*"
xml-rs = "*"
