[package]
name = "flo_scenery"
version = "0.1.0"
edition = "2021"
publish = false

[dependencies]
uuid = { version = "=1.29.0", features = ["v4"] }
serde = { version = "=1.0.229", features = ["derive"] }
futures = "=0.3.34"
flo_scene = "=0.2.0"
flo_binding = "=3.0.0"
flo_curves = "=0.8.1"
flo_draw = "=0.3.1"
smallvec = "=1.16.4"
once_cell = "=1.21.4"
gl = "=0.14.0"
lyon = "=0.17.10"
rapier2d = "*"
egui = "*"
