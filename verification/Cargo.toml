[package]
name = "batch_cognito"
version = "0.1.0"
edition = "2021"
publish = false

[dependencies]
anyhow = "*"
aws-config = "*"
aws-sdk-cognitoidentityprovider = "*"
clap = { version = "*", features = ["derive", "env"] }
tokio = { version = "*", features = ["macros", "rt-multi-thread", "fs", "io-util", "io-std", "time"] }
tracing = "*"
tracing-subscriber = { version = "*", features = ["env-filter"] }
