[package]
name = "trypanophobe"
version = "0.1.0"
edition = "2021"
publish = false

[dependencies]
whatlang = "=0.16.4"
tar = "=0.4.46"
xz2 = "=0.1.7"
anyhow = "=1.0.104"
serde = { version = "=1.0.229", features = ["derive"] }
clap = { version = "=4.6.7", features = ["derive"] }
tokio = { version = "=1.54.1", features = ["macros", "rt-multi-thread"] }
tracing = "=0.1.44"
tracing-subscriber = { version = "=0.3.23", features = ["env-filter"] }
salvo = { version = "=1.1.0", features = ["oapi", "affix-state"] }
salvo-cors = "=1.1.0"
tokenizers = { version = "=0.23.2", default-features = false, features = ["onig"] }
ort = { version = "=2.0.0-rc.15", default-features = false, features = ["std", "ndarray", "load-dynamic"] }
ndarray = "=0.17.2"
