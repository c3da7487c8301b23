[package]
name = "vive-hid"
version = "0.1.0"
edition = "2021"
publish = false

[dependencies]
flate2 = "1"
hidapi = { version = "2", default-features = false, features = ["linux-native-basic-udev"] }
once_cell = "1"
serde = { version = "1", features = ["derive"] }
serde_json = "1"
thiserror = "1"
