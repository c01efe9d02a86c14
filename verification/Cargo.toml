[package]
name = "abzdokgen"
version = "0.1.0"
edition = "2021"
publish = false

[dependencies]
anyhow = "=1.0.104"
axum = "=0.8.9"
axum-extra = { version = "=0.12.6", features = ["form"] }
clap = { version = "=4.6.7", features = ["derive"] }
ecow = "=0.2.6"
el = { version = "=0.2.0", features = ["axum"] }
fontdb = "=0.24.0"
jiff = "=0.2.38"
serde = { version = "=1.0.229", features = ["derive"] }
tokio = { version = "=1.54.1", features = ["full"] }
typst = "=0.12.0"
typst-pdf = "=0.12.0"

[dev-dependencies]
typst-assets = { version = "=0.12.0", features = ["fonts"] }
