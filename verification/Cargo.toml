[package]
name = "peresil"
version = "0.4.0"
edition = "2021"
publish = false

[dependencies]
paste = "*"
snafu = "*"
