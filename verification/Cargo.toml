[package]
name = "kf2_server"
version = "0.1.0"
edition = "2021"
publish = false

[dependencies]
url = "=2.5.8"
hex = "=0.4.3"
random_word = { version = "=0.5.3", features = ["en"] }
aes = "=0.8.4"
cbc = { version = "=0.1.2", features = ["alloc", "block-padding"] }
serde = { version = "=1.0.229", features = ["derive"] }
serde_json = "=1.0.154"
reqwest = { version = "=0.12.28", default-features = false, features = ["json", "cookies", "rustls-tls", "stream"] }
tokio = { version = "=1.54.1", features = ["full"] }
thiserror = "=2.0.21"
anyhow = "=1.0.104"
clap = { version = "=4.6.7", features = ["derive", "env"] }
which = "=7.0.3"
backon = "=1.6.0"
axum = "=0.8.9"
tower-http = { version = "=0.6.11", features = ["fs"] }
diesel = { version = "=2.3.14", features = ["sqlite", "r2d2", "chrono", "returning_clauses_for_sqlite_3_35"] }
diesel_migrations = "=2.3.2"
chrono = "=0.4.45"
async-trait = "=0.1.92"
rpassword = "=7.5.4"
config = { version = "*", default-features = false, features = ["toml"] }
