[package]
name = "headstore"
version = "0.1.0"
edition = "2021"
publish = false

[dependencies]
anyhow = "*"
async-trait = "*"
bigdecimal = "*"
dotenv = "*"
serde = { version = "*", features = ["derive"] }
sqlx = { version = "*", default-features = false, features = ["runtime-tokio", "postgres", "bigdecimal", "macros"] }
thiserror = "*"
tokio = { version = "*", features = ["rt-multi-thread", "macros"] }
