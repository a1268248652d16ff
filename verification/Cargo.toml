[package]
name = "cloudhome"
version = "0.1.0"
edition = "2021"
publish = false

[dependencies]
chrono = "0.4"
futures = "0.1"
notify = "4"
rusoto_core = "0.42"
rusoto_s3 = "0.42"
rust-crypto = "0.2.36"
serde = "1"
serde_derive = "1"
serde_json = "1"
shellexpand = "2"
