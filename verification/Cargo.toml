[package]
name = "thermal"
version = "0.1.0"
edition = "2021"
publish = false

[dependencies]
anyhow = "*"
base64 = "*"
clap = "*"
image = { version = "*", default-features = false, features = ["tiff"] }
img-parts = "*"
indicatif = "*"
itertools = "*"
lazy_static = "*"
ndarray = "*"
png = "*"
rayon = "*"
regex = "*"
serde = "*"
serde_derive = "*"
serde_json = "*"
