[package]
name = "eadkp"
version = "0.1.0"
edition = "2021"
publish = false

[dependencies]
heapless = "=0.8.0"
embedded-alloc = "=0.7.0"
enum-iterator = "=2.3.0"
cc = "=1.6.0"
regex = "=1.13.1"
image = { version = "=0.25.10", default-features = false, features = ["png"] }
