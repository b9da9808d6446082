[package]
name = "orbtk_backend"
version = "0.1.0"
edition = "2021"
publish = false

[dependencies]
plotters = { version = "=0.3.7", default-features = false, features = ["histogram", "line_series", "point_series"] }
plotters-backend = "=0.3.7"
