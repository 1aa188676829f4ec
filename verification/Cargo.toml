[package]
name = "note_editor"
version = "0.1.0"
edition = "2021"
publish = false

[dependencies]
crossterm = "0.27"
dotenv = "0.15"
exitfailure = "0.5"
reqwest = { version = "0.11", default-features = false, features = ["json", "rustls-tls"] }
serde = "1"
serde_derive = "1"
tokio = { version = "1", features = ["macros", "rt-multi-thread"] }
