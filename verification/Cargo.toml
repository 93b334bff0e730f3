[package]
name = "ar5iv_util"
version = "0.1.0"
edition = "2021"
publish = false

[dependencies]
chrono = "=0.4.45"
jwalk = "=0.9.0"
libxml = "=0.2.16"
rayon = "=1.12.0"
regex = "=1.13.1"
reqwest = { version = "=0.13.5", features = ["blocking"] }
serde_json = "=1.0.154"
