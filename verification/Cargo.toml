[package]
name = "verifier_runner"
version = "0.1.0"
edition = "2021"
publish = false

[dependencies]
anyhow = "=1.0.104"
chrono = "=0.4.45"
dotenvy = "=0.15.7"
lazy_static = "=1.5.1"
serde = { version = "=1.0.229", features = ["derive"] }
serde_json = "=1.0.151"
structopt = "=0.3.26"
tracing = "=0.1.44"
tracing-appender = "=0.2.5"
tracing-subscriber = { version = "=0.3.23", features = ["env-filter"] }
rust_ev_verifier_lib = "=0.4.5"
rust_ev_verifier_application_lib = "=0.4.5"
