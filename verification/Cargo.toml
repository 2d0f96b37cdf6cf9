[package]
name = "kubizone"
version = "0.1.0"
edition = "2021"
publish = false

[dependencies]
time = "*"
kube = { version = "*", features = ["runtime", "derive"] }
k8s-openapi = { version = "*", features = ["latest"] }
futures = "*"
json-patch = "*"
jsonptr = "*"
serde = { version = "*", features = ["derive"] }
serde_json = "*"
serde_yaml = "*"
schemars = "*"
thiserror = "*"
tracing = "*"
regex = "*"
