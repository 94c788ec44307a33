[package]
name = "istat"
version = "0.1.0"
edition = "2021"
publish = false

[dependencies]
async-trait = "=0.1.92"
futures = "=0.3.34"
hex_color = { version = "=3.0.0", features = ["serde"] }
iwlib = "=0.1.1"
serde = { version = "=1.0.229", features = ["derive"] }
serde_derive = "=1.0.229"
serde_json = "=1.0.151"
sysinfo = "=0.39.6"
tokio = { version = "=1.53.2", features = ["macros", "rt", "sync", "time"] }
