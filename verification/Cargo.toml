[package]
name = "gorustines"
version = "0.1.0"
edition = "2021"
publish = false

[dependencies]
crossbeam = "*"
rayon = "*"
sysinfo = "*"
threadpool = "*"
tokio = { version = "*", features = ["full"] }
