[package]
name = "onefig"
version = "0.1.0"
edition = "2021"
publish = false

[dependencies]
flexar = "*"
clap = { version = "4", features = ["derive"] }
hashbrown = "*"
home = "*"
