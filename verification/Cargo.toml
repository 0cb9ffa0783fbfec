[package]
name = "dcap-verify"
version = "0.1.0"
edition = "2021"
publish = false

[dependencies]
chrono = { version = "0.4", default-features = false, features = ["std", "serde"] }
hex = "0.4"
intel-tee-quote-verification-rs = "0.3.0"
p256 = "0.13"
pem = "3"
serde = { version = "1", features = ["derive"] }
serde_json = { version = "1", features = ["raw_value"] }
sha2 = "0.10"
thiserror = "2"
x509-parser = "0.18.1"

[dev-dependencies]
rcgen = "0.14"
