[package]
name = "jurnalo"
version = "0.1.0"
edition = "2021"
publish = false

[dependencies]
chrono = "0.4"
itertools = "0.12"
json = "0.12"
log = "0.4"
clap = { version = "4", features = ["derive"] }
diesel = { version = "2.1", features = ["sqlite", "chrono"] }
diesel_migrations = "2.1"
dotenvy = "0.15"
serde = { version = "1", features = ["derive"] }
serde_derive = "1"
toml = "0.8"
