[package]
name = "no_std_io"
version = "0.1.0"
edition = "2021"
publish = false

[dependencies]
hashbrown = "*"
miniz_oxide = "*"
relative-path = "*"
thiserror = "*"
zerocopy = { version = "*", features = ["derive"] }
