[package]
name = "chartplotterhat_utils"
version = "0.1.0"
edition = "2021"
publish = false

[dependencies]
anyhow = "1"
clap = { version = "4", features = ["derive"] }
embedded-hal = { version = "0.2", features = ["unproven"] }
linux-embedded-hal = "0.3"
thiserror = "1"
