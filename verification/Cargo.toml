[package]
name = "ldaps_listener"
version = "0.1.0"
edition = "2021"
publish = false

[dependencies]
futures-util = { version = "0.3", default-features = false, features = ["std", "sink"] }
ldap3_proto = "*"
openssl = "0.10"
tokio = { version = "1", features = ["io-util", "macros", "net", "rt", "sync"] }
tokio-openssl = "0.6"
tokio-util = { version = "0.7", features = ["codec"] }
tracing = "0.1"
uuid = { version = "1", features = ["v4"] }
