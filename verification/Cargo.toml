[package]
name = "bice_server"
version = "0.1.0"
edition = "2021"
publish = false

[dependencies]
chacha20poly1305 = { version = "0.10", features = ["getrandom"] }
pqcrypto-kyber = "0.8"
pqcrypto-traits = "0.3"
tiny-keccak = { version = "2", features = ["shake"] }
x25519-dalek = "2"
uuid = { version = "1", features = ["v4", "serde"] }
axum = "0.8"
tokio = { version = "1", features = ["full"] }
serde = { version = "1", features = ["derive"] }
serde_bytes = "0.11"
serde_json = "1"
postcard = { version = "1", features = ["alloc"] }
redis = { version = "0.27", features = ["tokio-comp"] }
sqlx = { version = "0.8", default-features = false, features = ["runtime-tokio", "postgres", "uuid", "chrono", "macros", "derive"] }
dotenv = "0.15"
