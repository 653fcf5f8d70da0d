[package]
name = "rbatis-xugu"
version = "0.1.0"
edition = "2021"
publish = false

[dependencies]
rbatis = "=4.9.8"
rbs = "=4.8.4"
serde = { version = "1", features = ["derive"] }
