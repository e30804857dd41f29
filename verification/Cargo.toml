[package]
name = "installer_probe"
version = "0.1.0"
edition = "2021"
publish = false

[dependencies]
encoding_rs = "0.8"
flate2 = "1"
liblzma = "*"
msi = "*"
pulldown-cmark = "*"

[dev-dependencies]
base16ct = { version = "*", features = ["alloc"] }
rand = "*"
sha1 = "*"
