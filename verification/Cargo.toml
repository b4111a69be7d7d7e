[package]
name = "nixdoc"
version = "0.1.0"
edition = "2021"
publish = false

[dependencies]
rnix = "0.4"
xml-rs = "*"
structopt = "*"
