[package]
name = "pdfcon"
version = "0.1.0"
edition = "2021"
publish = false

[dependencies]
clap = { version = "=4.6.7", features = ["cargo"] }
indicatif = { version = "=0.18.6", features = ["rayon"] }
log = "=0.4.34"
lopdf = "=0.46.0"
miniz_oxide = "=0.9.1"
num_cpus = "1"
png = "=0.18.1"
rayon = "=1.12.0"
