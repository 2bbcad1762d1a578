[package]
name = "weston_ivi_controller"
version = "0.1.0"
edition = "2021"
publish = false

[dependencies]
serde_json = { version = "1", features = ["arbitrary_precision", "preserve_order"] }
