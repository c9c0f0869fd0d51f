[package]
name = "mongrel"
version = "0.1.0"
edition = "2021"
publish = false

[dependencies]
bson = { version = "2", features = ["chrono-0_4"] }
mongodb = "3"
serde = { version = "1", features = ["derive"] }
serde_json = "1"
async-trait = "0.1"
futures-util = "0.3"
once_cell = "1"
chrono = "0.4"
thiserror = "1"
