[package]
name = "rwasm_trace"
version = "0.1.0"
edition = "2021"
publish = false

[dependencies]
bincode = "=1.3.3"
clap = { version = "=4.6.7", features = ["derive"] }
enum-map = "=2.7.3"
eyre = "=0.6.14"
hashbrown = "=0.14.5"
itertools = "=0.13.0"
num = "=0.4.3"
p3-util = "=0.2.3-succinct"
serde = { version = "=1.0.229", features = ["derive"] }
serde_json = "=1.0.154"
sp1-primitives = "=5.0.8"
sp1-stark = "=5.0.8"
strum = { version = "=0.26.3", features = ["derive"] }
thiserror = "=1.0.69"
tracing = "=0.1.44"
