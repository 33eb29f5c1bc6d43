[package]
name = "ramp_gen"
version = "0.1.0"
edition = "2021"
publish = false

[dependencies]
proc-macro2 = { version = "=1.0.107", default-features = false }

[dev-dependencies]
glam = "=0.29.3"
proc-macro2 = { version = "=1.0.107", default-features = false, features = ["span-locations"] }
