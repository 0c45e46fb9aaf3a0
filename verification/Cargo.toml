[package]
name = "cowsay"
version = "0.1.0"
edition = "2021"
publish = false

[dependencies]
textwrap = { version = "0.16", default-features = false }
itertools = "0.10"
rand = "0.8"
clap = { version = "3", features = ["derive"] }
atty = "0.2"
ariadne = "0.3"
include_dir = "0.7"

[dev-dependencies]
chumsky = { version = "0.9", default-features = false }
