[package]
name = "actix-web-opentelemetry"
version = "0.1.0"
edition = "2021"
publish = false

[dependencies]
actix-web = { version = "3", default-features = false }
futures = "0.3"
opentelemetry = "0.9"
opentelemetry-semantic-conventions = "0.1"
