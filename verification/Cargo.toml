[package]
name = "git_todos"
version = "0.1.0"
edition = "2021"
publish = false

[dependencies]
chrono = { version = "=0.4.45", default-features = false, features = ["std"] }
clap = { version = "=4.6.7", features = ["derive"] }
git2 = { version = "=0.21.0", default-features = false }
serde_json = "=1.0.154"
table_to_html = "=0.11.0"
tabled = "=0.22.0"
