[package]
name = "pulldown-cmark-toc"
version = "0.1.0"
edition = "2021"
publish = false

[dependencies]
pulldown-cmark = { version = "*", default-features = false }
regex = "1"
