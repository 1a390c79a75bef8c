[package]
name = "uls_exporter"
version = "0.1.0"
edition = "2021"
publish = false

[dependencies]
log = "=0.4.34"
reqwest = { version = "=0.13.5", default-features = false, features = ["json"] }
serde = { version = "=1.0.229", features = ["derive"] }
simple_logger = "=5.2.0"
tokio = { version = "=1.53.2", features = ["macros", "rt-multi-thread"] }
warp = { version = "=0.4.3", features = ["server"] }
