[package]
name = "carrybox"
version = "0.1.0"
edition = "2021"
publish = false

[dependencies]
aws-sdk-s3 = "1"
aws-smithy-types = "1"
log = { version = "0.4", features = ["std"] }
russh = "*"
russh-sftp = "2"
serde = { version = "1", features = ["derive"] }
serde_json = "1"
suppaftp = { version = "6", features = ["native-tls-vendored"] }
tokio = { version = "1", features = ["full"] }
