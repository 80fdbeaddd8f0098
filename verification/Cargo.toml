[package]
name = "dodjtime"
version = "0.1.0"
edition = "2021"
publish = false

[dependencies]
heapless = "*"
staticvec = "*"
embedded-graphics = "*"
futures-intrusive = "*"
chrono = "*"
