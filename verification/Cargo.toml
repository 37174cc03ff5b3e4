[package]
name = "nacos_cli"
version = "0.1.0"
edition = "2021"
publish = false

[dependencies]
clap = { version = "4", features = ["derive", "string"] }
cli-table = "0.4"
colored_json = "3"
reqwest = { version = "0.11", default-features = false, features = ["json"] }
rustyline = "10"
rustyline-derive = "0.7"
serde = { version = "1", features = ["derive"] }
serde_json = "1"
shlex = "1"
tokio = { version = "1", features = ["macros", "rt-multi-thread"] }
urlencoding = "2"
