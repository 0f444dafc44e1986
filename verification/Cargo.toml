[package]
name = "ttgtiso_desk"
version = "0.1.0"
edition = "2021"
publish = false

[dependencies]
sha2 = "=0.10.9"
serde = { version = "=1.0.229", features = ["derive"] }
serde_json = "=1.0.154"
toml = "=0.8.23"
anyhow = "=1.0.104"
tracing = "=0.1.44"
x11rb = { version = "=0.13.2", features = ["xtest"] }
directories = "=5.0.1"
