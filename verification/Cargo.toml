[package]
name = "jabraw"
version = "0.1.0"
edition = "2021"
publish = false

[dependencies]
tokio = { version = "1", features = ["full"] }
zbus = { version = "5", default-features = false, features = ["tokio"] }
ksni = "0.3"
serde_json = "1"
futures = "0.3"
libc = "0.2"
