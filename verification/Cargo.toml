[package]
name = "key_value_azure"
version = "0.1.0"
edition = "2021"
publish = false

[dependencies]
anyhow = "1"
azure_core = { version = "0.20", default-features = false, features = ["enable_reqwest_rustls", "hmac_rust"] }
azure_data_cosmos = { version = "0.20", default-features = false, features = ["enable_reqwest_rustls", "hmac_rust"] }
futures = "0.3"
serde = { version = "1", features = ["derive"] }
tokio = { version = "1", features = ["macros", "rt-multi-thread"] }
