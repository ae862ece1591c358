[package]
name = "tendon"
version = "0.1.0"
edition = "2021"
publish = false

[dependencies]
futures = "=0.3.34"
futures-timer = "=3.0.4"
log = "=0.4.35"
proc-macro2 = { version = "=1.0.107", features = ["span-locations"] }
quote = "=1.0.47"
rayon = "=1.12.0"
rls-data = "=0.19.1"
serde_json = "=1.0.154"
syn = { version = "=2.0.119", features = ["full"] }
tracing = "=0.1.44"
