[package]
name = "coil"
version = "0.1.0"
edition = "2021"
publish = false

[dependencies]
sqlx = { version = "0.8", default-features = false, features = ["runtime-async-std", "postgres", "migrate"] }
rayon = "1"
flume = "0.11"
futures = "0.3"
futures-timer = "3"
serde = { version = "1", features = ["derive"] }
rmp-serde = "1"
serde_json = "1"
thiserror = "1"
log = "0.4"
inventory = "0.3"
async-trait = "0.1"
smol = "2"
dotenv = "0.15"
