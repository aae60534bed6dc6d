[package]
name = "vr8_core"
version = "0.1.0"
edition = "2021"
publish = false

[dependencies]
hound = "3.5"
rayon = "1"
indicatif = "0.17"
serde = { version = "1", features = ["derive"] }
clap = { version = "4", features = ["derive"] }
tokio = { version = "1", features = ["macros", "rt-multi-thread", "fs"] }
