[package]
name = "chess_mdp"
version = "0.1.0"
edition = "2021"
publish = false

[dependencies]
chess = "*"
rand = "0.8"
neuroflow = "*"
serde_json = "1"
tokio = { version = "1", features = ["macros", "rt-multi-thread"] }
reqwest = { version = "*", default-features = false }
