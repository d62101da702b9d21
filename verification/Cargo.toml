[package]
name = "chess_session"
version = "0.1.0"
edition = "2021"
publish = false

[dependencies]
chess = "3.2"
raster = "0.2"
serenity = "0.11"
tokio = { version = "1", features = ["macros", "rt-multi-thread", "fs"] }
