[package]
name = "ei"
version = "0.1.0"
edition = "2021"
publish = false

[dependencies]
clap = { version = "=4.6.7", features = ["derive"] }
femme = "=2.2.1"
log = "=0.4.34"
reqwest = { version = "=0.13.5", default-features = false, features = ["json"] }
serde = { version = "=1.0.229", features = ["derive"] }
tokio = { version = "=1.53.2", features = ["macros", "rt-multi-thread"] }
toml = "=1.1.7"
warp = { version = "=0.4.3", default-features = false, features = ["server"] }
