[package]
name = "useract-forensic"
version = "0.1.0"
edition = "2021"
publish = false

[dependencies]
forensicnomicon = "*"
peripheral-core = "*"
shellhist-core = "*"
