[package]
name = "satsuma_core"
version = "0.1.0"
edition = "2021"
publish = false

[dependencies]
crc32fast = "=1.5.4"
flate2 = "=1.1.10"
tar = "=0.4.46"
zip = { version = "=2.6.1", default-features = false, features = ["deflate"] }
unrar = "=0.5.8"
serde = { version = "=1.0.229", features = ["derive"] }
serde_json = "=1.0.154"
font8x8 = "=0.3.1"
image = { version = "=0.25.10", default-features = false, features = ["png", "jpeg", "webp", "tiff", "bmp", "avif"] }
pdf-extract = "=0.12.1"
printpdf = "=0.12.8"
pdfium-render = "=0.9.5"
resvg = "=0.49.0"
notify = "=8.2.1"
x11rb = { version = "=0.14.0", features = ["xtest"] }
