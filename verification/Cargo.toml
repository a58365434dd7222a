[package]
name = "pixi_project"
version = "0.1.0"
edition = "2021"
publish = false

[dependencies]
indexmap = "=2.14.2"
itertools = "=0.14.0"
url = "=2.5.8"
xxhash-rust = { version = "=0.8.19", features = ["xxh3"] }
rattler_conda_types = { version = "=0.30.2", default-features = false }
rattler_lock = { version = "=0.22.40", default-features = false }
# Not called: rattler_conda_types 0.30 builds only against these versions of two of its crates.
file_url = "=0.2.2"
rattler_digest = { version = "=1.0.5", default-features = false }
pep440_rs = "=0.7.3"
pep508_rs = "=0.9.2"
console = "=0.15.11"
once_cell = "=1.21.4"
async-once-cell = "=0.5.4"
miette = "=7.6.0"
tracing = "=0.1.44"
fs_extra = "=1.3.0"
reqwest = { version = "=0.12.28", default-features = false }
reqwest-middleware = "=0.4.2"
