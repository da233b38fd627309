[package]
name = "pretty_logging"
version = "0.1.0"
edition = "2021"
publish = false

[dependencies]
colored = "=3.1.1"
log = "=0.4.34"
time = { version = "=0.3.55", features = ["local-offset"] }

[dev-dependencies]
time = { version = "=0.3.55", features = ["formatting", "parsing"] }
