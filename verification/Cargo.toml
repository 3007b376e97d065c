[package]
name = "framesync"
version = "0.1.0"
edition = "2021"

[dependencies]
rtrb = "=0.4.0"
