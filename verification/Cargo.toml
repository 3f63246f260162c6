[package]
name = "debugprobe"
version = "0.1.0"
edition = "2021"
publish = false

[dependencies]
heapless = "=0.8.0"
fixed = "=1.31.0"
portable-atomic = "=1.15.0"
embassy-executor = { version = "=0.10.0", features = ["platform-std", "executor-thread"] }
embassy-futures = "=0.1.2"
embassy-rp = { version = "=0.10.0", features = ["rp2040", "time-driver", "critical-section-impl", "unstable-pac", "binary-info"] }
embassy-time = "=0.5.1"
embassy-usb = "=0.6.0"
embedded-graphics = "=0.8.1"
embedded-io-async = "=0.7.0"
pio = "=0.3.0"
ssd1306 = "=0.10.0"
static_cell = "=2.1.1"
