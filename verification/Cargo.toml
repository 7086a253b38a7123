[package]
name = "bws_manager"
version = "0.1.0"
edition = "2021"
publish = false

[dependencies]
password-auth = "=1.0.0"
rand = "=0.8.8"
rocket = { version = "=0.5.2", features = ["secrets"] }
rocket_dyn_templates = { version = "=0.2.0", features = ["handlebars"] }
diesel = { version = "=2.3.14", features = ["sqlite"] }
dotenvy = "=0.15.7"
docker-api = "=0.14.0"
serde = { version = "=1.0.229", features = ["derive"] }
