[package]
name = "stream_entropy"
version = "0.1.0"
edition = "2021"
publish = false

[dependencies]
rand = "*"
bcrypt = "*"
reqwest = { version = "*", default-features = false }
serde = { version = "*", features = ["derive"] }
serde_json = "*"
time = { version = "*", features = ["formatting", "macros"] }
thiserror = "*"
actix-web = "*"
log = "*"
colored = "*"
flexi_logger = "*"
jsonwebtoken = "*"
sqlx = { version = "*", default-features = false, features = ["postgres", "runtime-tokio"] }
