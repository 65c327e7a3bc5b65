[package]
name = "server_session"
version = "0.1.0"
edition = "2021"
publish = false

[dependencies]
actix-web = { version = "4", default-features = false, features = ["cookies", "secure-cookies", "macros"] }
rand = "0.8"
time = { version = "0.3", features = ["formatting"] }
serde = "1"
serde_json = "1"
futures-util = { version = "0.3", default-features = false, features = ["alloc"] }
