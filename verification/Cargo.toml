[package]
name = "desc_alloc"
version = "0.1.0"
edition = "2021"
publish = false

[dependencies]
anyhow = "*"
erupt = "*"
gpu-alloc = "*"
gpu-alloc-erupt = "*"
