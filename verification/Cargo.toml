[package]
name = "fintrellis"
version = "0.1.0"
edition = "2021"
publish = false

[dependencies]
uuid = { version = "=1.27.0", features = ["v4"] }
tokio = { version = "=1.53.2", default-features = false, features = ["rt-multi-thread", "macros"] }
reqwest = { version = "=0.13.5", default-features = false, features = ["json", "form"] }
serde = { version = "=1.0.229", features = ["derive"] }
serde_json = "=1.0.151"
actix-web = { version = "=4.15.0", default-features = false, features = ["cookies", "macros"] }
bb8 = "=0.9.1"
bb8-redis = "=0.26.0"
toml = "=1.1.6"
