[package]
name = "gtmcli"
version = "0.1.0"
edition = "2021"
publish = false

[dependencies]
clap = { version = "4", features = ["derive", "env"] }
clap_complete = "4"
reqwest = { version = "0.12", default-features = false }
serde_json = "1"
thiserror = "2"
tokio = { version = "1", features = ["macros", "rt"] }
