[package]
name = "stochasticsampling"
version = "0.1.0"
edition = "2021"
publish = false

[dependencies]
time = "=0.3.55"
serde = "=1.0.229"
serde_derive = "=1.0.229"
toml = "=1.1.6"
bincode = "=1.3.3"
rand = "=0.8.8"
rand_distr = "=0.4.3"
rand_pcg = { version = "=0.3.1", features = ["serde1"] }
rayon = "=1.12.0"
quaternion = "=2.0.0"
num-complex = "=0.4.6"
clap = "=4.6.7"
colored = "=3.1.1"
env_logger = "=0.11.11"
log = "=0.4.34"
pbr = "=1.1.1"
