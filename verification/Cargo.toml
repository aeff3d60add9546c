[package]
name = "breadlock"
version = "0.1.0"
edition = "2021"
publish = false

[dependencies]
chrono = { version = "0.4", default-features = false, features = ["clock"] }
cosmic-text = "0.14"
glow = "0.16"
greetd_ipc = { version = "0.10", features = ["tokio-codec"] }
gtk4 = { version = "0.9", features = ["v4_12"] }
khronos-egl = { version = "6", features = ["dynamic"] }
libc = "0.2"
notify = "8"
pam-client2 = "*"
relm4 = "0.9"
serde = { version = "1", features = ["derive"] }
serde_json = "1"
smithay-client-toolkit = "0.20"
thiserror = "2"
tiny-skia = "0.11"
tokio = { version = "1", features = ["net", "sync", "time", "rt", "macros"] }
toml = "0.8"
tracing = "0.1"
tracing-subscriber = { version = "0.3", features = ["env-filter"] }
wayland-client = "0.31"
zbus = { version = "5", features = ["blocking-api"] }
zeroize = "1"
