[package]
name = "notary_facts"
version = "0.1.0"
edition = "2021"
publish = false

[dependencies]
p256 = "0.13"
elliptic-curve = { version = "0.13", features = ["pkcs8", "pem"] }
serde = { version = "1", features = ["derive"] }
serde_json = "1"
crabrolls = "*"
ethabi = "18"
async-std = { version = "1", features = ["attributes"] }
