[package]
name = "mlp"
version = "0.1.0"
edition = "2021"
publish = false

[dependencies]
rand = "0.9"
clap = { version = "4", features = ["derive"] }
ndarray = "*"
ndarray-rand = "*"
polars = { version = "*", default-features = false, features = ["csv"] }
plotters = { version = "0.3", default-features = false, features = ["bitmap_backend", "bitmap_encoder", "ttf", "line_series"] }
serde = { version = "1", features = ["derive"] }
serde_json = "1"
serde_yaml = "0.9"
