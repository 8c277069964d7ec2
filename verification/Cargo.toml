[package]
name = "app-queue"
version = "0.1.1"
edition = "2021"
publish = false

[dependencies]
anyhow = "1"
async-trait = "0.1"
chrono = "0.4"
ciborium = "0.2"
num_cpus = "1"
sqlx = { version = "0.7", default-features = false, features = ["runtime-tokio", "sqlite", "postgres", "chrono", "migrate"] }
tokio = { version = "1", features = ["rt", "sync", "time"] }
tracing = "0.1"
typetag = "0.2"
uuid = { version = "1", features = ["v4"] }
