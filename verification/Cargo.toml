[package]
name = "pimostat"
version = "0.1.0"
edition = "2021"
publish = false

[dependencies]
capnp = "0.14"
capnp-futures = "0.14"
capnp-rpc = "0.14"
clap = { version = "3", features = ["derive"] }
futures = "0.3"
gpiochip = "*"
native-tls = "0.2"
tokio = { version = "1", features = ["rt", "net", "time", "io-util", "sync"] }
tokio-native-tls = "0.3"
tokio-stream = { version = "0.1", features = ["net"] }
tokio-util = { version = "0.7", features = ["compat"] }
