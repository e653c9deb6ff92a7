[package]
name = "dbcore"
version = "0.1.0"
edition = "2021"
publish = false

[dependencies]
skiplist = "=0.6.0"
