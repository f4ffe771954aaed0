[package]
name = "theme_sync"
version = "0.1.0"
edition = "2021"
publish = false

[dependencies]
toml = "0.8"
dbus = "0.9"
libc = "0.2"
cfg-if = "1"
objc2 = "0.6"
objc2-app-kit = "0.3"
objc2-foundation = "0.3"
