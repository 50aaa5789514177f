[package]
name = "pqc_telemetry"
version = "0.1.0"
edition = "2021"
publish = false

[dependencies]
soft-aes = "=0.2.2"
rand = "=0.10.3"
rand_core = "=0.10.1"
serde = { version = "=1.0.229", features = ["derive"] }
serde_json = "=1.0.154"
tokio = { version = "=1.54.1", features = ["full"] }
csv = "=1.4.0"
hostname = "=0.4.2"
anyhow = "=1.0.104"
fips204 = "=0.5.0"
ml-dsa = "=0.1.2"
ml-kem = "=0.3.4"
ed25519-dalek = "=3.0.0"
chacha20 = { version = "=0.10.2", features = ["rng"] }
aes-gcm = "=0.11.1"
ntrulp = { version = "=0.2.7", features = ["std", "ntrup761"] }
rusty-saber = { version = "=1.0.0", features = ["lightsaber"] }
tokio-postgres = "=0.7.18"
