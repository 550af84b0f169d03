[package]
name = "ansi_display"
version = "0.1.0"
edition = "2021"
