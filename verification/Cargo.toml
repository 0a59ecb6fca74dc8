[package]
name = "blackout"
version = "0.1.0"
edition = "2021"
publish = false

[dependencies]
itertools = "*"
anyhow = "*"
clap = { version = "*", features = ["derive"] }
image = "*"
pdfium-render = "*"
tqdm = "*"
