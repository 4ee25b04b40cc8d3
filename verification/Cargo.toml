[package]
name = "photon"
version = "0.1.0"
edition = "2021"
publish = false

[dependencies]
anyhow = "1"
directories = "5"
log = "0.4"
nokhwa = { version = "0.10", default-features = false }
serde = { version = "1", features = ["derive"] }
serde_json = "1"
simplelog = "0.12"
sysinfo = { version = "0.30", default-features = false }
