[package]
name = "chela"
version = "0.1.0"
edition = "2021"
publish = false

[dependencies]
sqids = "=0.4.2"
url = { version = "=2.5.8", features = ["serde"] }
axum = "=0.7.9"
tokio = { version = "=1.53.2", features = ["full"] }
sqlx = { version = "=0.8.6", default-features = false, features = ["postgres", "runtime-tokio", "derive"] }
serde = { version = "=1.0.229", features = ["derive"] }
eyre = "=0.6.14"
color-eyre = "=0.6.5"
hyper = "=1.12.0"
hyper-util = { version = "=0.1.21", features = ["tokio", "server", "server-auto"] }
tower = "=0.4.13"
info_utils = "=2.2.3"
