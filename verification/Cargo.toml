[package]
name = "druid_segment"
version = "0.1.0"
edition = "2021"
publish = false

[dependencies]
anyhow = "=1.0.104"
arrow = { version = "59", default-features = false, features = ["csv", "json", "prettyprint"] }
async-trait = "0.1"
byteorder = "=1.5.0"
clap = { version = "=4.6.7", features = ["derive"] }
datafusion = { version = "=55.2.0", default-features = false }
lz4_flex = "=0.14.0"
memmap2 = "=0.9.12"
roaring = "=0.11.5"
serde = { version = "=1.0.229", features = ["derive"] }
serde_json = "=1.0.154"
thiserror = "=2.0.21"
tokio = { version = "1", features = ["rt-multi-thread", "macros"] }
tracing-subscriber = "=0.3.23"
