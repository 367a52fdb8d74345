[package]
name = "profile_view_counter"
version = "0.1.0"
edition = "2021"
publish = false

[dependencies]
argh = "=0.1.19"
http = "=1.5.0"
rand = "=0.10.3"
serde = { version = "=1.0.229", features = ["derive"] }
tokio = { version = "=1.53.2", features = ["full"] }
warp = { version = "=0.4.3", features = ["server"] }
