[package]
name = "isograph_schema"
version = "0.1.0"
edition = "2021"
publish = false

[dependencies]
logos = "=0.12.1"
thiserror = "=1.0.69"
