[package]
name = "niri-waybar-windowlist"
version = "0.1.0"
edition = "2021"
publish = false

[dependencies]
async-channel = "2"
async-stream = "0.3"
bitflags = "2"
dirs = "6"
futures = "0.3"
itertools = "0.14"
kdl = "6"
minijinja = "2"
niri-ipc = "*"
procfs = "0.17"
regex = "1"
serde = { version = "1", features = ["derive"] }
thiserror = "2"
tracing = "0.1"
tracing-subscriber = { version = "0.3", features = ["env-filter"] }
waybar-cffi = "*"
wayland-client = "0.31"
wayland-protocols-wlr = { version = "0.3", features = ["client"] }
zbus = "5"
