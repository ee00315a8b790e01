[package]
name = "catalog_watch"
version = "0.1.0"
edition = "2021"
publish = false

[dependencies]
select = "0.6"
lambda_runtime = "0.1"
log = "0.4"
reqwest = { version = "0.9", default-features = false, features = ["rustls-tls"] }
rusoto_core = { version = "0.42", default-features = false, features = ["rustls"] }
rusoto_dynamodb = { version = "0.42", default-features = false, features = ["rustls"] }
rusoto_sns = { version = "0.42", default-features = false, features = ["rustls"] }
serde = "1"
serde_derive = "1"
simple_logger = "1"
