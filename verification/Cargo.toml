[package]
name = "monocle_layout"
version = "0.1.0"
edition = "2021"
publish = false

[dependencies]
slotmap = { version = "=1.1.1", features = ["serde"] }
serde = { version = "=1.0.229", features = ["derive"] }
objc2-core-foundation = { version = "=0.3.2", default-features = false, features = ["std", "CFCGTypes"] }
