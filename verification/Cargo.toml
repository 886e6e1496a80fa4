[package]
name = "rusty_replay"
version = "0.1.0"
edition = "2021"
publish = false

[dependencies]
sha2 = "=0.10.9"
hex = "=0.4.3"
rand = "=0.9.5"
chrono = { version = "=0.4.45", features = ["serde"] }
prost = "=0.14.4"
opentelemetry-proto = { version = "=0.33.1", default-features = false, features = ["gen-tonic-messages", "trace"] }
serde = { version = "=1.0.229", features = ["derive"] }
serde_json = "=1.0.154"
actix-web = { version = "=4.18.1", default-features = false, features = ["macros", "cookies"] }
actix-cors = "0.7"
sea-orm = { version = "=1.1.20", default-features = false, features = ["macros", "with-chrono", "with-json", "sqlx-mysql", "runtime-tokio-rustls"] }
reqwest = { version = "=0.12.28", default-features = false, features = ["json"] }
bcrypt = "=0.19.3"
jsonwebtoken = "=9.3.1"
uuid = { version = "=1.29.0", features = ["v4"] }
log = "=0.4.34"
anyhow = "=1.0.104"
dotenv = "=0.15.0"
