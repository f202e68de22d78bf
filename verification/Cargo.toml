[package]
name = "torc"
version = "0.8.0"
edition = "2021"
publish = false

[dependencies]
regex = "=1.13.1"
sha2 = "=0.10.9"
serde = { version = "=1.0.229", features = ["derive"] }
serde_json = "=1.0.154"
clap = { version = "=4.6.7", features = ["derive"] }
clap_complete = "4"
chrono = "=0.4.45"
hostname = "=0.4.2"
shlex = "=1.3.0"
log = "=0.4.35"
env_logger = "=0.11.11"
flate2 = "1"
tar = "0.4"
serde_yaml = "0.9"
tabled = "*"
rusqlite = { version = "*", features = ["bundled"] }
sysinfo = "*"
nvml-wrapper = "*"
