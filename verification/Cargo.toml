[package]
name = "nextest_runner"
version = "0.1.0"
edition = "2021"
publish = false

[dependencies]
camino = "*"
config = { version = "*", default-features = false }
guppy = "*"
quick-junit = "*"
serde_json = "*"
target-spec = "*"
toml = "*"
