[package]
name = "motion_trails"
version = "0.1.0"
edition = "2021"
publish = false

[dependencies]
clap = { version = "*", features = ["derive"] }
image = "*"
imageproc = "*"
rayon = "*"
tokio = { version = "*", features = ["macros", "rt-multi-thread"] }
