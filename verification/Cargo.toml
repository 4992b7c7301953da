[package]
name = "selfplay_chess"
version = "0.1.0"
edition = "2021"
publish = false

[dependencies]
chess = "3.2"
neuroflow = "*"
serde = { version = "1", features = ["derive"] }
serde_json = "1"
indicatif = "*"
text_io = "*"
