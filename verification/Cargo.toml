[package]
name = "gateway"
version = "0.1.0"
edition = "2021"
publish = false

[dependencies]
prost = "0.13"
tokio = { version = "1", features = ["rt-multi-thread", "macros", "signal", "time"] }
rumqttc = { version = "0.24", default-features = false }
sqlx = { version = "0.8", default-features = false, features = ["sqlite", "runtime-tokio"] }
serde = { version = "1", features = ["derive"] }
config = { version = "0.14", default-features = false, features = ["toml"] }
async-trait = "0.1"
tracing = "0.1"
tracing-subscriber = { version = "0.3", features = ["env-filter", "fmt"] }
