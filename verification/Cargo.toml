[package]
name = "cell_arch"
version = "0.1.0"
edition = "2021"
publish = false

[dependencies]
chrono = "=0.4.45"
uuid = { version = "=1.29.0", features = ["v4"] }
serde = { version = "=1.0.229", features = ["derive"] }
serde_json = "=1.0.154"
serde_yaml = "=0.9.34"
toml = "=0.8.23"
walkdir = "=2.5.0"
clap = { version = "=4.6.7", features = ["derive"] }
syn = { version = "=2.0.119", features = ["full", "visit"] }
quote = "=1.0.47"
proc-macro2 = { version = "=1.0.107", features = ["span-locations"] }

[dev-dependencies]
tempfile = "=3.27.0"
