[package]
name = "gnome-randr"
version = "0.1.0"
edition = "2021"
publish = false

[dependencies]
dbus = { version = "0.9", features = ["vendored"] }
serde = { version = "1", features = ["derive"] }
serde_json = "1"
structopt = "0.3"
