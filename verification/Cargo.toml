[package]
name = "remindee-bot"
version = "0.1.0"
edition = "2021"
publish = false

[dependencies]
chrono = { version = "=0.4.45", features = ["serde"] }
chrono-tz = "=0.10.4"
chronoutil = "=0.2.7"
nonempty = "=0.10.0"
serde = { version = "=1.0.229", features = ["derive"] }
serde_json = "=1.0.154"
clap = { version = "=4.6.7", features = ["derive", "env"] }
directories = "=5.0.1"
teloxide = { version = "=0.17.0", default-features = false, features = ["macros", "rustls", "ctrlc_handler"] }
takecell = "=0.1.1"
tokio = { version = "=1.54.1", features = ["macros", "rt-multi-thread", "time", "sync"] }
log = "=0.4.35"
pretty_env_logger = "=0.5.0"
sea-orm = { version = "=2.0.4", default-features = false, features = ["sqlx-sqlite", "runtime-tokio-rustls", "macros", "with-chrono"] }
