[package]
name = "mdl"
version = "0.1.0"
edition = "2021"
publish = false

[dependencies]
url = "2"
rustc-hash = "2"
itertools = "*"
log = "0.4"
anstyle = "1"
clap = { version = "4", features = ["derive"] }
once_cell = "1"
pyo3 = "*"
pythonize = "*"
serde = { version = "1", features = ["derive"] }
toml = "*"
thiserror = "*"
id3 = "*"
metaflac = "*"
infer = "*"
reqwest = { version = "*", default-features = false, features = ["blocking"] }
