[package]
name = "komari_monitor"
version = "0.1.0"
edition = "2021"
publish = false

[dependencies]
time = "=0.3.55"
tokio = { version = "=1.54.1", features = ["fs", "io-util", "time", "rt-multi-thread", "macros", "sync"] }
sysinfo = { version = "=0.39.6", default-features = false, features = ["network", "system", "disk"] }
log = "=0.4.34"
palc = "=0.0.2"
