[package]
name = "db"
version = "0.1.0"
edition = "2021"
publish = false

[dependencies]
sqlparser = "*"
cardinality-estimator = "*"
rapidhash = "*"
fastbloom = "*"
bytemuck = { version = "*", features = ["derive"] }
snafu = "*"
tokio = { version = "*", features = ["rt-multi-thread", "macros", "net"] }
socket2 = "*"
ahash = "*"
