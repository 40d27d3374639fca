[package]
name = "fasta_dedup"
version = "0.1.0"
edition = "2021"
publish = false

[dependencies]
regex = "1"
bio = "*"
clap = { version = "4", features = ["derive"] }
flate2 = "1"
serde_json = "1"
