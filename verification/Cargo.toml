[package]
name = "secubot"
version = "0.1.0"
edition = "2021"
publish = false

[dependencies]
anyhow = "=1.0.104"
config = { version = "=0.13.4", default-features = false, features = ["toml", "json", "yaml"] }
diesel = { version = "=2.3.14", features = ["sqlite", "r2d2", "returning_clauses_for_sqlite_3_35"] }
diesel_migrations = { version = "=2.3.2", features = ["sqlite"] }
glob = "=0.3.4"
itertools = "=0.12.1"
lazy_static = "=1.5.1"
log = "=0.4.34"
octocrab = "=0.40.0"
poise = "=0.5.7"
regex = "=1.13.1"
serde = { version = "=1.0.229", features = ["derive"] }
serde_derive = "=1.0.229"
serenity = "=0.11.7"
time = { version = "=0.3.55", features = ["formatting"] }
tokio = { version = "=1.54.1", features = ["full"] }
tokio-stream = "=0.1.19"
tracing = "=0.1.44"
tracing-subscriber = { version = "=0.3.23", features = ["env-filter"] }
url_encoded_data = "=0.6.1"
