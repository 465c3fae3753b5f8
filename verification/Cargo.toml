[package]
name = "uv_project"
version = "0.1.0"
edition = "2021"
publish = false

[dependencies]
anyhow = "=1.0.104"
fs-err = "=3.3.2"
indoc = "=2.0.8"
itertools = "=0.14.0"
owo-colors = "=4.4.0"
pep440_rs = "=0.7.3"
pep508_rs = "=0.9.2"
toml = "=0.9.12"
toml_edit = "=0.23.10"
tracing = "=0.1.44"
url = "=2.5.8"
uv-cache-key = { version = "=0.0.50", default-features = false }
uv-redacted = { version = "=0.0.50", default-features = false }
