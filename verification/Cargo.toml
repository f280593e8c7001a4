[package]
name = "joule_profiler"
version = "0.1.0"
edition = "2021"
publish = false

[dependencies]
regex = "=1.13.1"
toml = "=1.1.8"
serde = { version = "=1.0.229", features = ["derive"] }
humantime = "=2.4.0"
humantime-serde = "=1.1.1"
clap = { version = "=4.6.7", features = ["derive"] }
clap_complete = "=4.6.11"
tokio = { version = "=1.54.1", features = ["full"] }
tokio-util = "=0.7.20"
tokio-timerfd = "=0.2.0"
futures = "=0.3.34"
libc = "=0.2.191"
log = "=0.4.35"
thiserror = "=1.0.69"
anyhow = "=1.0.104"
smallvec = "=1.16.4"
bitflags = "=2.13.2"
nvml-wrapper = "=0.13.0"
procfs = "*"
perf-event2 = "*"
amdsmi = "*"

[dev-dependencies]
tempfile = "=3.27.0"
