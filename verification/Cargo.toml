[package]
name = "proxy"
version = "0.1.0"
edition = "2021"
publish = false

[dependencies]
base64 = "=0.22.1"
bytes = "=1.12.1"
futures = "0.3"
getrandom = "=0.2.17"
h3 = "=0.0.8"
h3-quinn = "=0.0.10"
hickory-proto = "=0.25.2"
http = "=1.5.0"
httparse = "=1.10.1"
hyper = { version = "=0.14.32", features = ["client", "http1", "http2", "tcp"] }
hyper-rustls = { version = "=0.24.2", default-features = false, features = ["http1", "http2", "webpki-tokio"] }
lru = "=0.12.5"
maxminddb = "=0.24.0"
md-5 = "=0.10.6"
netstack-smoltcp = "=0.2.4"
quinn = { version = "=0.11.12", default-features = false, features = ["runtime-tokio", "rustls", "ring"] }
rusqlite = { version = "=0.31.0", features = ["bundled"] }
rustls = { version = "=0.23.46", default-features = false, features = ["ring", "std"] }
serde = { version = "=1.0.229", features = ["derive"] }
serde_json = "=1.0.154"
smallvec = "=1.16.4"
smoltcp = "=0.11.0"
socket2 = { version = "=0.5.10", features = ["all"] }
subtle = "=2.6.1"
tokio = { version = "=1.54.1", features = ["full"] }
toml = "=0.8.23"
trust-dns-resolver = "=0.22.0"
tun = { version = "=0.7.22", features = ["async"] }
url = "=2.5.8"
warp = { version = "=0.3.7", default-features = false }
