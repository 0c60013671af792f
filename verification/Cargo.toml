[package]
name = "fuzz_init"
version = "0.1.0"
edition = "2021"
publish = false

[dependencies]
anyhow = "*"
clap = { version = "4", features = ["derive", "env"] }
clap-markdown = "*"
handlebars = "6"
inquire = "*"
notify = "*"
reqwest = { version = "*", default-features = false, features = ["rustls-tls"] }
serde = { version = "*", features = ["derive"] }
serde_json = "*"
tempfile = "*"
tokio = { version = "1", features = ["macros", "rt-multi-thread"] }
toml = "*"
zip = { version = "*", default-features = false, features = ["deflate"] }
