[package]
name = "ghl"
version = "0.1.0"
edition = "2021"
publish = false

[dependencies]
colored = "=3.1.1"
home = "=0.5.12"
inquire = { version = "=0.9.4", features = ["editor"] }
open = "=5.4.4"
reqwest = { version = "=0.12.28", default-features = false, features = ["rustls-tls"] }
serde_json = "=1.0.151"
tokio = { version = "=1.53.2", default-features = false, features = ["macros", "rt-multi-thread"] }
