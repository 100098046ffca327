[package]
name = "can_fw_update"
version = "0.1.0"
edition = "2021"
publish = false

[dependencies]
crc32c-hw = "=0.1.3"
heapless = "=0.8.0"
bxcan = "=0.7.0"
nb = "1"
tokio = { version = "1", features = ["macros", "rt-multi-thread", "time", "sync"] }
tokio-socketcan = "=0.3.1"
socketcan = "=1.7.0"
futures-util = "0.3"
clap = { version = "4", features = ["derive"] }

[dev-dependencies]
rand = "=0.8.8"
