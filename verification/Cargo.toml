[package]
name = "adsb_pipeline"
version = "0.1.0"
edition = "2021"
publish = false

[dependencies]
dotenvy = "0.15"
futures-util = "0.3"
lapin = "2"
log = "0.4"
mongodb = "2"
redis = "0.25"
serde = { version = "1", features = ["derive"] }
serde_json = "1"
simplelog = "0.12"
tokio = { version = "1", features = ["macros", "rt-multi-thread"] }
