[package]
name = "lum_service"
version = "0.1.0"
edition = "2021"
publish = false

[dependencies]
lum_boxtypes = "=0.4.0"
lum_event = "=0.4.0"
lum_libs = { version = "=0.2.14", features = ["tokio", "dashmap", "async-trait", "downcast-rs"] }
lum_log = "=0.4.0"
thiserror = "=2.0.21"
