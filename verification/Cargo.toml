[package]
name = "dev-tools"
version = "0.9.5"
edition = "2021"
publish = false

[dependencies]
dev-report = { version = "=0.9.8", features = ["terminal", "markdown", "sarif", "junit"] }
dev-fixtures = "=0.9.5"
dev-bench = "=0.10.0"
dev-async = "=0.9.5"
dev-stress = "=0.9.5"
dev-chaos = "=0.9.5"
dev-coverage = "=0.9.2"
dev-security = "=0.9.3"
dev-deps = "=0.9.2"
dev-ci = "=0.9.3"
dev-fuzz = "=0.9.2"
dev-flaky = "=0.9.2"
dev-mutate = "=0.9.3"
serde = { version = "=1.0.229", features = ["derive"] }
serde_json = "=1.0.154"
clap = { version = "=4.6.7", features = ["derive"] }
# chrono: the library's report timestamps (their RFC 3339 text and the
# milliseconds between two of them); dev_report's types hold chrono values.
chrono = "=0.4.45"
