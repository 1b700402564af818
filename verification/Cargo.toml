[package]
name = "buildid_index"
version = "0.1.0"
edition = "2021"
publish = false

[dependencies]
object = "*"
base16 = "*"
actix-files = "*"
actix-web = { version = "*", default-features = false, features = ["macros"] }
anyhow = "*"
log = "*"
once_cell = "*"
sqlx = { version = "*", default-features = false, features = ["sqlite", "runtime-tokio"] }
threadpool = "*"
tokio = { version = "*", default-features = false, features = ["sync", "process", "fs", "time", "rt", "macros"] }
walkdir = "*"
