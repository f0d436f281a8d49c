[package]
name = "dbus_codec"
version = "0.1.0"
edition = "2021"
publish = false

[dependencies]
clap = "=2.34.0"
dbus = { version = "=0.9.12", features = ["vendored"] }
log = "=0.4.34"
simple_logger = "=1.16.0"
xml-rs = "=0.8.29"
