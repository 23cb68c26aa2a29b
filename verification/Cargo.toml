[package]
name = "spirv_reflect"
version = "0.2.3"
edition = "2021"
publish = false

[dependencies]
spirv = "=0.4.0"
spirv_headers = "=1.5.0"
num-traits = "=0.2.19"
bitflags = "=1.3.2"
serde = { version = "=1.0.229", features = ["derive"] }
