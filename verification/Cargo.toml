[package]
name = "jproxy"
version = "0.1.0"
edition = "2021"
publish = false

[dependencies]
rand = "0.9"
tokio = { version = "1", features = ["full"] }
hyper = { version = "1", features = ["full"] }
hyper-util = { version = "0.1", features = ["full"] }
http = "1"
http-body-util = "0.1"
bytes = "1"
futures-util = "0.3"
tower-service = "0.3"
clap = { version = "4", features = ["derive"] }
serde = { version = "1", features = ["derive"] }
config = "*"
glob = "*"
notify = "*"
ipnet = { version = "2", features = ["serde"] }
tracing = "*"
tracing-subscriber = { version = "*", features = ["env-filter"] }
thiserror = "*"
rtnetlink = "*"
netlink-packet-route = "*"
