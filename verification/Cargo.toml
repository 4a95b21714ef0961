[package]
name = "hello_actix"
version = "0.1.0"
edition = "2021"
publish = false

[dependencies]
actix-web = "4"
actix-web-httpauth = "0.8"
base64 = "0.22"
chrono = "0.4"
fastrand = "2"
r2d2 = "0.8"
r2d2_sqlite = "*"
ring = "0.17"
rusqlite = { version = "*", features = ["chrono", "bundled"] }
serde = { version = "1", features = ["derive"] }
tracing = "0.1"
