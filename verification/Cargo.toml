[package]
name = "mimisweep"
version = "0.1.0"
edition = "2021"
publish = false

[dependencies]
anyhow = "1"
colored = "2"
log = "0.4"
memchr = "2"
pretty_env_logger = "0.5"
sysinfo = "0.29"
windows = { version = "0.48", features = ["Win32_Foundation", "Win32_System_Diagnostics_Debug", "Win32_System_Kernel", "Win32_System_Threading"] }
