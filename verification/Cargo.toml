[package]
name = "trilateration"
version = "0.1.0"
edition = "2021"
publish = false

[dependencies]
rocket = "0.5"
rocket_dyn_templates = { version = "*", features = ["handlebars"] }
rusqlite = "=0.41.0"
serde = "=1.0.229"
serde_derive = "=1.0.229"
