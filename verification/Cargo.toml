[package]
name = "forgetop_tui"
version = "0.1.0"
edition = "2021"
publish = false

[dependencies]
chrono = "0.4"
open = "5"
notify-rust = "4"
