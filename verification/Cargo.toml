[package]
name = "time"
version = "0.3.5"
edition = "2021"
publish = false

[dependencies]
itoa = "1"
serde = "1"
