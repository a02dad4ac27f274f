[package]
name = "goofy_ahh_alloc"
version = "0.1.0"
edition = "2021"

[dependencies]
dashmap = "*"
lazy_static = "*"
memmap2 = "*"
