[package]
name = "git_warden"
version = "0.1.0"
edition = "2021"
publish = false

[dependencies]
serde = { version = "=1.0.229", features = ["derive"] }
serde_json = "=1.0.154"
serde_yaml = "=0.9.34"
toml = "=0.8.23"
quick-xml = "=0.37.5"
regex = "=1.13.1"
chardetng = "1"
infer = "=0.16.0"
ec4rs = "=1.2.0"
sha2 = "=0.10.9"
ureq = "=3.5.1"
dirs = "=6.0.0"
rayon = "=1.12.0"
