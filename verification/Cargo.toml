[package]
name = "list_comprehension"
version = "0.1.0"
edition = "2021"
publish = false

[dependencies]
genawaiter = { version = "0.99.1", default-features = false }
