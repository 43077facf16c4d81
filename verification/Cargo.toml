[package]
name = "probes"
version = "0.1.0"
edition = "2021"
publish = false

[dependencies]
futures = "=0.3.34"
libc = "=0.2.191"
log = "=0.4.34"
redbpf = { version = "=2.3.0", features = ["load"] }
redbpf-probes = "=2.3.0"
simple_logger = "=5.2.0"
tokio = { version = "=1.54.1", features = ["macros", "rt-multi-thread"] }
