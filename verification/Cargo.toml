[package]
name = "diesel_schemas"
version = "0.1.0"
edition = "2021"
publish = false

[dependencies]
diesel = { version = "=2.3.14", features = ["r2d2", "postgres"] }
diesel-async = { version = "=0.9.2", features = ["postgres", "mysql"] }
