[package]
name = "backer"
version = "0.1.1"
edition = "2021"
publish = false

[dependencies]
anyhow = "=1.0.104"
bincode = "=1.3.3"
chrono = "=0.4.45"
clap = { version = "=4.6.7", features = ["derive"] }
flate2 = "=1.1.10"
home = "=0.5.12"
job_scheduler = "=1.2.1"
log = "=0.4.34"
qiniu-upload-manager = "=0.2.4"
serde = { version = "=1.0.229", features = ["derive"] }
serde_yaml = "=0.9.34"
signal-hook = "=0.4.5"
simple_logger = "=5.2.0"
tar = "=0.4.46"
thiserror = "=2.0.21"
time = "=0.3.55"
tokio = { version = "=1.53.2", features = ["full"] }
walkdir = "=2.5.0"
zip = "=8.6.0"
