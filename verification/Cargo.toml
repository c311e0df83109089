[package]
name = "vscp"
version = "0.1.0"
edition = "2021"
publish = false

[dependencies]
hashbrown = "=0.17.1"
allocator-api2 = { version = "=0.2.21", default-features = false, features = ["alloc"] }
clap = { version = "=4.6.7", features = ["derive"] }
mlua = { version = "=0.10.5", features = ["lua54", "vendored"] }
