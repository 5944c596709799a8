[package]
name = "lurk_sansio"
version = "0.1.0"
edition = "2021"
publish = false

[dependencies]
indexmap = { version = "*", features = ["serde"] }
lurk_protocol = "*"
serde = { version = "1", features = ["derive"] }
