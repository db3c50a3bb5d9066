[package]
name = "frame_logic"
version = "0.1.0"
edition = "2021"
publish = false

[dependencies]
sp-arithmetic = "*"
alloy-core = { version = "*", features = ["sol-types"] }
primitive-types = "*"
tokio = { version = "1", features = ["sync", "rt", "macros"] }

[dev-dependencies]
sp-weights = "*"
