[package]
name = "httpkit"
version = "0.1.0"
edition = "2021"
publish = false

[dependencies]
reqwest = { version = "=0.13.5", default-features = false, features = ["blocking", "json", "multipart", "query"] }
serde = "=1.0.229"
serde_json = "=1.0.151"
log = "=0.4.34"
thiserror = "=2.0.21"

[dev-dependencies]
urlencoding = "=2.1.3"
