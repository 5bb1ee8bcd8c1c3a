[package]
name = "sys_kaleido"
version = "0.1.0"
edition = "2021"
publish = false

[dependencies]
argh = "*"
colored = "*"
directories = "*"
flate2 = "*"
futures-util = "*"
indicatif = "*"
log = "*"
log4rs = "*"
octocrab = "*"
reqwest = { version = "*", default-features = false, features = ["rustls-tls", "stream", "json"] }
self_update = { version = "*", default-features = false, features = ["rustls"] }
serde = { version = "*", features = ["derive"] }
sevenz-rust = "*"
tar = "*"
thiserror = "*"
tokio = { version = "*", features = ["macros", "rt-multi-thread", "fs"] }
toml = "*"
zip = "*"
