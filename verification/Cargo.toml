[package]
name = "augmentations"
version = "0.1.0"
edition = "2021"
publish = false

[dependencies]
itertools = "0.10.5"
ndarray = "0.15.6"
polars = { version = "0.32", default-features = false }
rand = "0.8.5"
rand_distr = "0.4.3"
