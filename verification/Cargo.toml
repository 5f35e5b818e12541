[package]
name = "termscript"
version = "0.1.0"
edition = "2021"
publish = false

[dependencies]
ncurses = "=5.99.0"
