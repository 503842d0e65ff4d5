[package]
name = "dhxs_launcher"
version = "0.1.0"
edition = "2021"
publish = false

[dependencies]
crc32fast = "*"
shlex = "*"
shellexpand = "*"
glob = "*"
xdg = "*"
gtk4 = { version = "*", features = ["v4_10"] }
libadwaita = { version = "*", features = ["v1_6"] }
