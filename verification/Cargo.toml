[package]
name = "walrs"
version = "0.1.0"
edition = "2021"
publish = false

[dependencies]
image = "*"
color-thief = "*"
palette_extract = "*"
palette = "0.7"
kmeans_colors = "0.6"
argh = "*"
