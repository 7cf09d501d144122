[package]
name = "job_dispatch"
version = "0.2.3"
edition = "2021"
publish = false

[dependencies]
anyhow = "*"
clap = { version = "*", features = ["derive"] }
colored = "*"
inquire = "*"
k8s-openapi = { version = "*", features = ["latest"] }
serde_yml = "*"
