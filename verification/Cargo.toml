[package]
name = "generust"
version = "0.1.0"
edition = "2021"
publish = false

[dependencies]
rand = "=0.8.8"
uuid = { version = "=1.27.0", features = ["v4"] }
chrono = "=0.4.45"
memmap = "=0.7.0"
glob = "=0.3.4"
structopt = "=0.3.26"
atty = "=0.2.14"
fern = { version = "=0.7.1", features = ["colored"] }
log = "=0.4.34"

[dev-dependencies]
uuid = { version = "=1.27.0", features = ["v4"] }
chrono = "=0.4.45"
