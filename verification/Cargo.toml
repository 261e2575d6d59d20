[package]
name = "spike_tracer"
version = "0.1.0"
edition = "2021"
publish = false

[dependencies]
anyhow = "=1.0.104"
autocxx = "=0.30.0"
bincode = "=1.3.3"
capstone = "=0.14.0"
clap = { version = "=4.6.7", features = ["derive"] }
cxx = "=1.0.205"
derive_more = { version = "=2.1.1", features = ["deref", "deref_mut"] }
glob = "=0.3.4"
perf-event = "=0.4.9"
postcard = { version = "=1.1.3", features = ["use-std"] }
rayon = "=1.12.0"
regex = "=1.13.1"
serde = { version = "=1.0.229", features = ["derive"] }
spinners = "=4.2.0"
thiserror = "=2.0.21"
