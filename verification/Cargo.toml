[package]
name = "tomoe"
version = "0.1.0"
edition = "2021"
publish = false

[dependencies]
smithay = { version = "0.6", default-features = false, features = ["backend_winit", "backend_drm", "backend_gbm", "backend_egl", "backend_libinput", "backend_udev", "backend_session_libseat", "renderer_gl", "desktop", "wayland_frontend"] }
smithay-drm-extras = "*"
serde = { version = "1", features = ["derive"] }
toml = "0.8"
dirs = "*"
tracing = "0.1"
tracing-subscriber = { version = "0.3", features = ["env-filter"] }
