[package]
name = "nsay"
version = "0.1.0"
edition = "2021"
publish = false

[dependencies]
anyhow = "1"
dirs = "*"
image = "0.25"
imageproc = "0.25"
ndarray = "0.16"
ort = ">=2.0.0-rc.9"
regex = "1"
serde = { version = "1", features = ["derive"] }
serde_json = "1"
tch = "*"
toml = "*"
toml_edit = "*"
tracing = "*"
tracing-subscriber = "*"
ureq = "*"
