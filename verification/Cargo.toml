[package]
name = "stringsimile"
version = "0.1.0"
edition = "2021"
publish = false

[dependencies]
triple_accel = "*"
rphonetic = "*"
confusables = "*"
idna = "*"
hashbrown = "*"
strsim = "*"
regex = "*"
regex-syntax = "*"
serde = { version = "*", features = ["derive"] }
serde_json = "*"
snafu = "*"
ipnet = "*"
xorf = "*"
hyperscan = "*"
metrics = "*"
tracing = "*"
