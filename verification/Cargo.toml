[package]
name = "api_front"
version = "1.0.0"
edition = "2021"
publish = false

[dependencies]
chrono = { version = "=0.4.45", features = ["serde"] }
dotenvy = "=0.15.7"
log = "=0.4.34"
moka = { version = "=0.12.16", features = ["sync"] }
okapi = "=0.7.0"
regex = "=1.13.1"
reqwest = { version = "=0.12.28", features = ["json"] }
rocket = { version = "=0.5.1", features = ["json", "secrets"] }
rocket_dyn_templates = { version = "=0.2.0", features = ["tera"] }
rocket_okapi = { version = "=0.9.0", features = ["rapidoc", "secrets"] }
schemars = { version = "=0.8.22", features = ["chrono", "uuid1"] }
serde = { version = "=1.0.229", features = ["derive"] }
serde_json = "=1.0.154"
simple_logger = "=5.2.0"
sqlx = { version = "=0.8.6", features = ["sqlite", "runtime-tokio", "chrono", "macros", "migrate"] }
uuid = { version = "=1.29.0", features = ["v4", "serde"] }
