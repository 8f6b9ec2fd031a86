[package]
name = "datavfs"
version = "0.1.0"
edition = "2021"
publish = false

[dependencies]
opendal = { version = "=0.54.1", default-features = false, features = ["services-ftp", "services-gdrive", "services-s3", "layers-throttle"] }
tokio = { version = "=1.54.1", features = ["fs", "io-util", "rt", "rt-multi-thread"] }
async-trait = "=0.1.92"
futures-lite = "=2.6.1"
bytesize = { version = "=2.7.0", features = ["serde"] }
chrono = { version = "=0.4.45", features = ["serde"] }
uuid = { version = "=1.29.0", features = ["v4"] }
sysinfo = "=0.40.1"
filetime = "=0.2.29"
serde = { version = "=1.0.229", features = ["derive"] }
