[package]
name = "opt"
version = "0.1.0"
edition = "2021"
publish = false

[dependencies]
chrono = { version = "0.4", default-features = false, features = ["clock", "std"] }
clap = { version = "4", features = ["derive"] }
color-eyre = "0.6"
crossbeam = "0.8"
dark-light = "1"
eyre = "0.6"
fehler = "1"
im = "=15.1.0"
indoc = "2"
itertools = "0.12"
mint = "0.5"
rand = "=0.8.8"
rand_distr = "=0.4.3"
rayon = "=1.12.0"
reqwest = { version = "0.11", default-features = false, features = ["blocking", "json", "rustls-tls"] }
rusqlite = { version = "0.29", features = ["bundled", "chrono", "url", "serde_json"] }
scraper = "0.17"
serde = { version = "1", features = ["derive"] }
serde_json = "1"
strum = { version = "0.25", features = ["derive"] }
tracing = "0.1"
tracing-error = "0.2"
tracing-subscriber = { version = "0.3", features = ["env-filter"] }
tracing-tree = "0.2"
url = "2"
