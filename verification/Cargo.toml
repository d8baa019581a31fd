[package]
name = "ubi"
version = "0.0.1"
edition = "2021"
publish = false

[dependencies]
anyhow = "=1.0.104"
bzip2 = { version = "=0.4.4", features = ["static"] }
clap = "=3.2.25"
fern = { version = "=0.6.2", features = ["colored"] }
flate2 = "=1.1.10"
log = "=0.4.35"
octocrab = "=0.12.0"
platforms = "=2.0.0"
regex = "=1.13.1"
reqwest = "=0.11.27"
tar = "=0.4.46"
tempfile = "=3.27.0"
tokio = { version = "=1.43.4", features = ["macros", "rt"] }
xz = "=0.1.0"
xz2 = { version = "=0.1.7", features = ["static"] }
zip = "=0.6.6"
zip-extensions = "=0.6.2"
