[package]
name = "overlay_relay"
version = "0.1.0"
edition = "2021"
publish = false

[dependencies]
egui_backend = "=0.4.0"
egui_extras = { version = "=0.22.0", features = ["image"] }
egui_overlay = "=0.4.1"
egui_render_three_d = "=0.4.0"
egui_window_glfw_passthrough = "=0.4.2"
image = { version = "=0.24.9", default-features = false, features = ["png"] }
image-base64 = "=0.1.0"
simple-websockets = "=0.1.6"
stoppable_thread = "=0.2.1"
