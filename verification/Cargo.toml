[package]
name = "rpr"
version = "0.1.0"
edition = "2021"
publish = false

[dependencies]
url = "2"
scraper = "*"
markdown-it = "*"
serde = { version = "1", features = ["derive"] }
serde_yaml = "*"
anyhow = "1"
thiserror = "*"
clap = { version = "4", features = ["derive"] }
tokio = { version = "1", features = ["rt-multi-thread", "macros", "fs"] }
indicatif = "*"
extract-frontmatter = "*"
leptos = { version = "*", default-features = false }
