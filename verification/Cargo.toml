[package]
name = "motioncap"
version = "0.10.0"
edition = "2021"
publish = false

[dependencies]
anyhow = "1"
chrono = { version = "=0.4.45", default-features = false, features = ["clock", "std"] }
clap = { version = "4", features = ["derive"] }
cpal = "=0.18.2"
ctrlc = "3"
env_logger = { version = "0.11", default-features = false }
image = { version = "=0.25.10", default-features = false }
log = "0.4"
ndarray = "=0.17.2"
nokhwa = { version = "=0.10.11", default-features = false, features = ["input-native", "output-threaded"] }
opencv = { version = "=0.101.1", default-features = false, features = ["highgui", "video"] }
ort = { version = "=2.0.0-rc.15", default-features = false, features = ["cuda", "load-dynamic", "ndarray", "openvino", "rocm", "std"] }
serde = { version = "1", features = ["derive"] }
serde_json = "1"
