[package]
name = "iptoasn"
version = "0.1.0"
edition = "2021"
publish = false

[dependencies]
iron = "0.6"
log = "0.4"
router = "0.6"
serde_json = "1"
time = "0.1"
unicase = "1"
