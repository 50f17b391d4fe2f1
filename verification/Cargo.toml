[package]
name = "carbonado_node"
version = "0.1.0"
edition = "2021"
publish = false

[dependencies]
anyhow = "=1.0.104"
axum = "=0.6.20"
axum-macros = "=0.3.8"
bao = "=0.12.1"
blake3 = "=1.8.7"
carbonado = "=0.3.6"
clap = { version = "=4.6.7", features = ["derive"] }
directories = "=4.0.1"
ecies = { version = "=0.2.6", default-features = false, features = ["pure", "std"] }
flexi_logger = "=0.27.4"
flexi_syslog = "=0.5.3"
log = "=0.4.34"
once_cell = "=1.21.4"
pretty_env_logger = "=0.5.0"
rand = "=0.8.8"
rayon = "=1.12.0"
secp256k1 = { version = "=0.28.2", features = ["global-context", "rand-std", "serde"] }
serde = { version = "=1.0.229", features = ["derive"] }
syslog = "=6.1.1"
tokio = { version = "=1.54.1", features = ["full"] }
toml = "=0.7.8"
tower-http = { version = "=0.4.4", features = ["cors"] }
