[package]
name = "differential_logging"
version = "0.1.0"
edition = "2021"
publish = false

[dependencies]
timely = "=0.12.0"
differential-dataflow = "=0.12.0"
serde = { version = "1", features = ["derive"] }
