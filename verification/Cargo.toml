[package]
name = "snake_tty"
version = "0.1.0"
edition = "2021"
publish = false

[dependencies]
k_board = { version = "=1.3.1", features = ["standar"] }
rand = "=0.8.8"
termion = "=4.0.6"
