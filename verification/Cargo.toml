[package]
name = "collection_email_worker"
version = "0.1.0"
edition = "2021"
publish = false

[dependencies]
handlebars = "*"
css-inline = "*"
serde_json = "*"
base64 = "*"
chrono = "*"
serde = { version = "*", features = ["derive"] }
log = "*"
simple_logger = "*"
async-trait = "*"
tokio = { version = "*", features = ["macros", "rt-multi-thread", "time"] }
reqwest = { version = "*", default-features = false, features = ["json", "rustls-tls"] }
uuid = { version = "*", features = ["v4"] }
mail-builder = "*"
lambda_runtime = "*"
aws-config = "*"
aws-sdk-sqs = "*"
aws-sdk-ses = "*"
aws-sdk-scheduler = "*"
