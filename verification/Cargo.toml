[package]
name = "pidgeon"
version = "0.1.0"
edition = "2021"
publish = false

[dependencies]
regex = "*"
uuid = { version = "*", features = ["v4"] }
tokio = { version = "*", features = ["rt-multi-thread", "macros", "net", "time", "signal", "sync", "fs"] }
tokio-modbus = "*"
flume = "*"
chrono = { version = "*", features = ["serde"] }
serde = { version = "*", features = ["derive"] }
serde_json = "*"
serde_yaml = "*"
toml = "*"
directories = "*"
ipnet = "*"
tokio-cron-scheduler = "*"
sqlx = { version = "*", default-features = false, features = ["runtime-tokio", "postgres", "chrono", "json"] }
reqwest = { version = "*", default-features = false, features = ["json"] }
