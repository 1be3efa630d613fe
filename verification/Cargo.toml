[package]
name = "finite_difference"
version = "0.1.0"
edition = "2021"
publish = false
