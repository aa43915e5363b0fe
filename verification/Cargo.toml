[package]
name = "famtrust_vault"
version = "0.1.0"
edition = "2021"
publish = false

[dependencies]
alloy = { version = "*", default-features = false, features = ["std", "signer-local", "sol-types"] }
chrono = { version = "*", default-features = false, features = ["alloc"] }
dioxus = { version = "*", default-features = false, features = ["macro", "html", "signals", "hooks", "router"] }
jni = "*"
serde = { version = "*", features = ["derive"] }
serde_json = "*"
tokio = { version = "*", features = ["rt-multi-thread", "macros"] }
