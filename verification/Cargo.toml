[package]
name = "oic_fox_fuckery"
version = "0.1.0"
edition = "2021"
publish = false

[dependencies]
chrono = { version = "=0.4.45", features = ["serde"] }
chrono-tz = "=0.10.4"
icalendar = { version = "=0.17.17", features = ["chrono-tz"] }
serde = { version = "=1.0.229", features = ["derive"] }
serde_json = "=1.0.154"
tokio = { version = "=1.54.1", features = ["macros", "rt-multi-thread"] }
reqwest = { version = "=0.12.28", default-features = false, features = ["json"] }
axum = "=0.8.9"
async-trait = "=0.1.92"
tracing = "=0.1.44"
