[package]
name = "scx_scheds"
version = "0.1.0"
edition = "2021"
publish = false

[dependencies]
anyhow = "=1.0.104"
clap = { version = "=4.6.7", features = ["derive"] }
clap_complete = "=4.6.11"
crossbeam = "=0.8.5"
ctrlc = { version = "=3.5.2", features = ["termination"] }
env_logger = "=0.11.11"
libbpf-rs = "=0.26.2"
log = "=0.4.35"
rand = "=0.10.3"
rand_distr = "=0.6.0"
scx_stats = "=1.1.4"
scx_stats_derive = "=1.1.4"
scx_utils = { version = "=1.1.4", features = ["autopower"] }
serde = { version = "=1.0.229", features = ["derive"] }
simplelog = "=0.12.2"
