[package]
name = "onto_turtle"
version = "0.1.0"
edition = "2021"
publish = false

[dependencies]
rio_api = "*"
