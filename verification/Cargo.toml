[package]
name = "mindbell"
version = "0.1.1"
edition = "2021"
publish = false

[dependencies]
anyhow = "1"
esp-idf-svc = "0.49"
esp32-nimble = "0.8"
log = "0.4"
serde = { version = "1", features = ["derive"] }
serde_json = "1"
