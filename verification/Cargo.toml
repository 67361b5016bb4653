[package]
name = "tree_sync"
version = "0.1.0"
edition = "2021"
publish = false

[dependencies]
base64 = "=0.22.1"
bytes = "=1.12.1"
chrono = { version = "=0.4.45", default-features = false, features = ["std"] }
futures = "=0.3.34"
geojson = "=0.24.2"
google-apis-common = "=8.0.0"
google-drive3 = "=7.0.0"
google-storage1 = "=7.0.0"
http-body-util = "=0.1.5"
hyper = "=1.12.0"
hyper-rustls = { version = "=0.27.10", features = ["http2", "rustls-platform-verifier"] }
hyper-util = "=0.1.21"
image = { version = "=0.25.10", default-features = false, features = ["jpeg", "png", "webp"] }
kamadak-exif = "=0.6.1"
libheif-rs = "=3.0.0"
md5 = "=0.7.0"
mime = "=0.3.17"
num_cpus = "=1.17.0"
peak_alloc = "=0.3.0"
serde_json = "=1.0.154"
thiserror = "=2.0.21"
tokio = { version = "=1.54.1", features = ["rt-multi-thread", "macros", "sync", "time"] }
tokio-stream = "=0.1.19"
tracing = "=0.1.44"
tracing-subscriber = { version = "=0.3.23", features = ["env-filter", "json"] }
webp = "=0.3.1"
yup-oauth2 = "=12.1.2"
