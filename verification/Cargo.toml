[package]
name = "unicum_api"
version = "0.1.0"
edition = "2021"
publish = false

[dependencies]
argon2 = "0.5"
async-trait = "0.1"
axum = "0.8"
base64 = "0.22"
clap = { version = "4", features = ["derive"] }
colored = "*"
dotenvy = "0.15"
fern = { version = "0.7", features = ["colored"] }
inquire = "*"
log = "0.4"
reqwest = { version = "0.12", default-features = false, features = ["json"] }
scraper = "*"
serde = { version = "1", features = ["derive"] }
serde_json = "1"
sqlx = { version = "0.8", default-features = false, features = ["runtime-tokio", "postgres", "derive", "macros"] }
thiserror = "2"
time = { version = "0.3", features = ["macros", "formatting", "parsing", "serde"] }
tokio = { version = "1", features = ["macros", "rt-multi-thread", "net", "sync", "time"] }
uuid = { version = "1", features = ["serde"] }
