[package]
name = "byten"
version = "0.1.0"
edition = "2021"
publish = false

[dependencies]
heapless = "=0.8.0"
thiserror = "=2.0.21"
proc-macro2 = "1"
quote = "1"
syn = { version = "2", features = ["full"] }
