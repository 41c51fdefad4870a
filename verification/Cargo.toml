[package]
name = "surrealdb_migrations"
version = "0.1.0"
edition = "2021"
publish = false

[dependencies]
lexicmp = "0.1"
diffy = "0.4"
rust-ini = "0.21"
sha2 = "0.10"
hex = "0.4"
convert_case = "0.6"
sqlparser = "0.41"
chrono = "0.4"
names = { version = "0.14", default-features = false }
clap = { version = "4", features = ["derive"] }
serde = { version = "1", features = ["derive"] }
serde_json = "1"
owo-colors = { version = "4", features = ["supports-colors"] }
cli-table = "0.4"
chrono-human-duration = "0.1"
fs_extra = "1.3"
include_dir = "0.7"
color-eyre = "0.6"
anyhow = "1"
itertools = "0.13"
regex = "1"
