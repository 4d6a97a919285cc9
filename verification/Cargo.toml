[package]
name = "football_quiz"
version = "0.1.0"
edition = "2021"
publish = false

[dependencies]
serde_json = "*"
rand = "0.9"
crossterm = "*"
