[package]
name = "delta_telemetry"
version = "0.1.0"
edition = "2021"
publish = false

[dependencies]
anyhow = "=1.0.104"
async-trait = "=0.1.92"
byteorder = "=1.5.0"
crossbeam-channel = "=0.5.17"
csv = "=1.4.0"
dirs-next = "=2.0.0"
parking_lot = "=0.12.5"
salsa20 = "=0.10.2"
serde = { version = "=1.0.229", features = ["derive"] }
serde_json = "=1.0.154"
thiserror = "=1.0.69"
tokio = { version = "=1.54.1", features = ["macros", "net", "rt", "rt-multi-thread", "time"] }
uuid = { version = "=1.29.0", features = ["v4", "serde"] }
windows = { version = "0.58", features = ["Win32_Foundation", "Win32_Security", "Win32_System_Memory"] }
