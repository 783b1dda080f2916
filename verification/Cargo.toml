[package]
name = "pos_hardware"
version = "0.1.0"
edition = "2021"
publish = false

[dependencies]
escpos = { version = "=0.19.1", features = ["usb", "graphics"] }
rusb = "=0.9.4"
log = "=0.4.35"
serde = { version = "=1.0.229", features = ["derive"] }
windows = { version = "0.61", features = ["Win32_UI_Input", "Win32_Foundation"] }
