[package]
name = "pika"
version = "0.1.0"
edition = "2021"
publish = false

[dependencies]
aws-credential-types = { version = "*", features = ["hardcoded-credentials"] }
aws-sdk-s3 = { version = "*", features = ["behavior-version-latest"] }
aws-types = "*"
config = { version = "*", default-features = false, features = ["json"] }
serde = { version = "*", features = ["derive"] }
tokio = { version = "*", features = ["macros", "rt-multi-thread", "time"] }
