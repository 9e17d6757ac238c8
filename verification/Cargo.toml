[package]
name = "vaulty"
version = "0.1.0"
edition = "2021"
publish = false

[dependencies]
uuid = { version = "1", features = ["v5"] }
base64 = "0.22"
mailparse = "0.15"
serde = { version = "1", features = ["derive"] }
serde_json = "1"
warp = "0.3"
tokio = { version = "1", features = ["macros", "rt-multi-thread"] }
sqlx = { version = "0.8", default-features = false, features = ["runtime-tokio", "postgres", "chrono", "uuid"] }
reqwest = { version = "0.12", default-features = false, features = ["blocking", "json", "stream"] }
lettre = { version = "0.11", default-features = false, features = ["smtp-transport", "builder"] }
chrono = { version = "0.4", default-features = false, features = ["clock"] }
log = "0.4"
env_logger = { version = "0.11", default-features = false }
lazy_static = "1"
bytes = "1"
futures = "0.3"
url = "2"
clap = { version = "4", default-features = false, features = ["std"] }
