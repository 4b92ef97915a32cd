[package]
name = "kora"
version = "0.1.0"
edition = "2021"
publish = false

[dependencies]
alloy-consensus = { version = "=1.8.3", default-features = false }
alloy-primitives = "=1.7.3"
alloy-rlp = "=0.3.16"
bytes = "=1.12.1"
clap = { version = "=4.6.7", features = ["derive"] }
commonware-codec = "=2026.5.0"
commonware-cryptography = "=2026.5.0"
# The library calls none of the next three itself. They are named to hold
# every commonware crate at one release: commonware-cryptography 2026.5.0
# does not build against later releases of them.
commonware-formatting = "=2026.5.0"
commonware-macros = "=2026.5.0"
commonware-math = "=2026.5.0"
commonware-parallel = "=2026.5.0"
commonware-utils = "=2026.5.0"
ed25519-consensus = "=2.1.0"
eyre = "=0.6.14"
futures = "=0.3.34"
rand = "=0.8.8"
serde = { version = "=1.0.229", features = ["derive"] }
serde_json = "=1.0.154"
thiserror = "=2.0.21"
toml = "=0.8.23"
tracing = "=0.1.44"
tracing-subscriber = { version = "=0.3.23", features = ["env-filter"] }
