[package]
name = "collab_store"
version = "0.1.0"
edition = "2021"
publish = false

[dependencies]
uuid = "=1.27.0"
chrono = { version = "=0.4.45", default-features = false, features = ["clock"] }
anyhow = "=1.0.104"
async-trait = "=0.1.92"
tokio = { version = "=1.53.2", features = ["rt", "time", "macros", "io-util"] }
sqlx = { version = "=0.8.6", default-features = false, features = ["postgres", "runtime-tokio", "tls-rustls", "chrono", "uuid"] }
octocrab = "=0.44.1"
reqwest = { version = "=0.12.28", default-features = false, features = ["rustls-tls"] }
