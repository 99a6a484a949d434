[package]
name = "teyvat_nav"
version = "0.1.0"
edition = "2021"
publish = false

[dependencies]
pinyin = "0.10"
natord = "1.0"
serde = { version = "1", features = ["derive"] }
serde_json = "1"
bincode = { version = "2", features = ["serde"] }
log = "0.4"
rand = "0.8"
tokio = { version = "1", features = ["rt", "time", "macros", "sync"] }
async-trait = "0.1"
evdev-rs = "0.6"
opencv = { version = "0.95", default-features = false, features = ["imgproc", "imgcodecs", "features2d", "calib3d"] }
