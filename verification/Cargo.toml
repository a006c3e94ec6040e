[package]
name = "realconsole"
version = "0.1.0"
edition = "2021"
publish = false

[dependencies]
regex = "=1.13.1"
lru = "=0.12.5"
once_cell = "=1.21.4"
serde = { version = "=1.0.229", features = ["derive"] }
serde_json = "=1.0.154"
serde_yaml_ng = "=0.10.0"
tokio = { version = "=1.54.1", features = ["sync", "rt", "macros", "time"] }
async-trait = "=0.1.92"
chrono = "=0.4.45"
uuid = { version = "=1.29.0", features = ["v4"] }
chinese-lunisolar-calendar = "=0.1.27"
reqwest = { version = "0.12", default-features = false, features = ["json", "rustls-tls"] }
colored = "2"
