[package]
name = "conn_pool"
version = "0.1.0"
edition = "2021"
publish = false

[dependencies]
actix = "=0.13.5"
anyhow = "=1.0.104"
http = "=1.5.0"
tonic = "=0.14.6"
