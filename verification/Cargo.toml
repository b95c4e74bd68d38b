[package]
name = "now_playing"
version = "0.1.0"
edition = "2021"
publish = false

[dependencies]
color-eyre = "0.6"
crossbeam-channel = "0.5"
embedded-canvas = "0.3"
embedded-graphics = "0.8"
embedded-graphics-simulator = "*"
embedded-layout = "0.4"
embedded-text = "0.7"
esp-idf-svc = "*"
heapless = "*"
image = { version = "0.24", default-features = false, features = ["jpeg", "png"] }
jpeg-decoder = "0.3"
log = "0.4"
rgb565 = "*"
serde = { version = "1", features = ["derive"] }
serde_json = "1"
st7735-lcd = "*"
strum = { version = "0.26", features = ["derive"] }
unicode-segmentation = "1"
ureq = { version = "2", features = ["json"] }
