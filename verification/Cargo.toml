[package]
name = "slimg"
version = "0.1.0"
edition = "2021"
publish = false

[dependencies]
image = { version = "=0.25.10", default-features = false, features = ["png", "webp", "jpeg"] }
oxipng = { version = "=9.1.5", default-features = false }
imagequant = { version = "=4.4.1", default-features = false }
png = "=0.17.16"
rapid-qoi = "=0.6.3"
ravif = { version = "=0.13.0", default-features = false }
imgref = "=1.12.3"
rgb = "=0.8.53"
zenavif = "=0.1.6"
zenpixels-convert = "=0.2.16"
mozjpeg = { version = "=0.10.13", default-features = false }
webp = { version = "=0.3.1", default-features = false }
rayon = "1"
clap = { version = "4", features = ["derive"] }
anyhow = "1"
