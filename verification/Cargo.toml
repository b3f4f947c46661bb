[package]
name = "tagaton"
version = "0.1.0"
edition = "2021"
publish = false

[dependencies]
toml = "0.2"
crossbeam = "0.2"
iron = "0.5"
hyper = "0.10"
router = "0.5"
r2d2 = "*"
r2d2_sqlite = { version = "*", features = ["bundled"] }
rustc-serialize = "0.3"
time = "0.1"
unicase = "1"
flexi_logger = "*"
log = "0.3"
lazy_static = "0.2"
