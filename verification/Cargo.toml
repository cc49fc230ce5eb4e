[package]
name = "flashurl"
version = "0.1.0"
edition = "2021"
publish = false

[dependencies]
rand = "*"
qrcodegen = "*"
base64 = "*"
image = { version = "*", default-features = false, features = ["png"] }
axum = "*"
tokio = { version = "*", features = ["rt-multi-thread", "macros", "net"] }
tower-http = { version = "*", features = ["fs"] }
sqlx = { version = "*", default-features = false, features = ["sqlite", "runtime-tokio"] }
serde = { version = "*", features = ["derive"] }
