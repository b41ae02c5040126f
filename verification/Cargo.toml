[package]
name = "rimage"
version = "0.1.0"
edition = "2021"
publish = false

[dependencies]
anyhow = "=1.0.104"
clap = { version = "=4.6.7", features = ["cargo"] }
fast_image_resize = "=6.1.0"
glob = "=0.3.4"
lcms2 = "=6.2.0"
log = "=0.4.35"
oxipng = "=10.2.1"
ravif = { version = "=0.13.0", default-features = false, features = ["threading"] }
resvg = "=0.49.0"
sysinfo = "=0.40.1"
tiff = "=0.11.3"
webp = "=0.3.1"
zune-core = "=0.5.1"
zune-image = "=0.5.0"
zune-imageprocs = "=0.5.1"
