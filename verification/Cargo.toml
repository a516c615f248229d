[package]
name = "drug_extraction"
version = "0.1.0"
edition = "2021"
publish = false

[dependencies]
strsim = "*"
csv = "*"
clap = { version = "*", features = ["derive"] }
serde = { version = "*", features = ["derive"] }
serde_json = "*"
dialoguer = "*"
indicatif = "*"
color-eyre = "*"
atty = "*"
rayon = "*"
reqwest = { version = "*", default-features = false, features = ["blocking", "json", "rustls-tls"] }
