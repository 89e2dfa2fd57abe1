[package]
name = "maxima"
version = "0.1.0"
edition = "2021"
publish = false

[dependencies]
bytebuffer = "=2.3.0"
openssl = "=0.10.82"
hex = "=0.4.3"
aes = "=0.8.4"
cbc = { version = "=0.1.2", features = ["alloc"] }
base64 = "=0.22.1"
regex = "=1.13.1"
md5 = "=0.7.0"
serde = { version = "=1.0.229", features = ["derive"] }
serde_json = "=1.0.154"
quick-xml = { version = "=0.37.5", features = ["serialize"] }
chrono = "=0.4.45"
globset = "=0.4.21"
mac_address = "=1.2.1"
tokio = { version = "1", features = ["rt-multi-thread", "macros", "net", "fs", "io-util", "process", "time", "sync"] }
reqwest = { version = "0.12", default-features = false, features = ["json", "rustls-tls"] }
url = "2"
querystring = "1"
toml = "0.8"
which = "6"
