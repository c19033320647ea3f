[package]
name = "physis"
version = "0.1.0"
edition = "2021"

[dependencies]
texpresso = "2"
miniz_oxide = "*"
half = "2"
