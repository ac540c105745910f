[package]
name = "myip"
version = "0.1.0"
edition = "2021"
publish = false

[dependencies]
axum = "=0.8.9"
maud = "=0.27.0"
thiserror = "=2.0.21"
tokio = { version = "=1.54.1", features = ["macros", "net", "rt-multi-thread", "signal"] }
tower = "=0.5.3"
tower-sombrero = "=0.1.0"
vss = "=0.1.1"
