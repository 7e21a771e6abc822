[package]
name = "obox-controller-driver"
version = "0.1.0"
edition = "2021"
publish = false

[dependencies]
anyhow = "=1.0.104"
hidapi = "=2.6.7"
ico = "=0.3.0"
tray-icon = "=0.21.3"
vigem-client = { version = "=0.1.4", features = ["unstable_xtarget_notification"] }
winit = "=0.29.15"
