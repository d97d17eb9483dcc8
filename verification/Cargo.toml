[package]
name = "horned_functional"
version = "0.1.0"
edition = "2021"
publish = false

[dependencies]
horned-owl = "0.11"
curie = "0.1"
enum_meta = "0.6"
thiserror = "1"
