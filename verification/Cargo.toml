[package]
name = "testdrive"
version = "0.1.0"
edition = "2021"
publish = false

[dependencies]
url = "*"
parse_duration = "*"
tokio = { version = "*", features = ["rt-multi-thread"] }
tokio-postgres = "*"
futures = "*"
async-trait = "*"
rand = "*"
tempfile = "*"
rusoto_core = "*"
rusoto_credential = "*"
rusoto_kinesis = "*"
