[package]
name = "cloudpubsub"
version = "0.1.0"
edition = "2021"
publish = false

[dependencies]
mqtt3 = "*"
threadpool = "*"
quick-error = "1"
openssl = "*"
