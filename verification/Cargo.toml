[package]
name = "csv_ingest"
version = "0.1.0"
edition = "2021"
publish = false

[dependencies]
csv = "1"
futures = "0.3"
serde = { version = "1", features = ["derive"] }
tokio = { version = "1", features = ["full"] }
tokio-postgres = "0.7"
warp = "0.3"
