[package]
name = "codex_surface"
version = "0.1.0"
edition = "2021"
publish = false

[dependencies]
ratatui = { version = "0.29", default-features = false, features = ["crossterm", "unstable-rendered-line-info", "unstable-widget-ref"] }
crossterm = "0.28"
serde = { version = "1", features = ["derive"] }
serde_json = "1"
tokio = { version = "1", features = ["macros", "rt", "sync", "time"] }
unicode-width = "0.2"
url = "2"
