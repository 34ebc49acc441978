[package]
name = "k3_live_manager"
version = "0.1.0"
edition = "2021"
publish = false

[dependencies]
oauth2 = { version = "4.4", default-features = false, features = ["reqwest", "rustls-tls"] }
url = "2"
chrono = "0.4"
tokio = { version = "1", features = ["rt-multi-thread", "macros", "net", "sync", "time"] }
hyper = { version = "1", features = ["server", "http1"] }
hyper-util = { version = "0.1", features = ["tokio"] }
http-body-util = "0.1"
