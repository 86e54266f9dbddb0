[package]
name = "kairos"
version = "0.1.0"
edition = "2021"
publish = false

[dependencies]
block2 = "0.6"
cpal = "0.16"
dispatch2 = "0.3"
libc = "0.2"
mach2 = "0.4"
notify = "8"
objc2 = "0.6"
objc2-app-kit = "0.3"
objc2-core-audio = "0.3"
objc2-core-foundation = "0.3"
objc2-core-graphics = "0.3"
objc2-foundation = "0.3"
objc2-metal = "0.3"
objc2-quartz-core = "0.3"
serde = { version = "1", features = ["derive"] }
toml = "0.9"
