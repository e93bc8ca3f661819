[package]
name = "authorization_logic"
version = "0.1.0"
edition = "2021"
publish = false

[dependencies]
tink-core = { version = "*", features = ["json", "insecure"] }
tink-signature = "*"
