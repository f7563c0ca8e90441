[package]
name = "udp_mux"
version = "0.1.0"
edition = "2021"
publish = false

[dependencies]
bytes = "1"
futures = "0.3"
quinn = "0.10"
quinn-udp = "0.4"
tokio = { version = "1", features = ["sync", "macros", "rt", "time"] }
tracing = "0.1"
