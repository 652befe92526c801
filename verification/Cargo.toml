[package]
name = "pxls_canvas"
version = "0.1.0"
edition = "2021"
publish = false

[dependencies]
bytes = "1"
png = "0.17"
clap = { version = "4", features = ["derive"] }
reqwest = { version = "0.11", features = ["json"] }
serde = { version = "1", features = ["derive"] }
tokio = { version = "1", features = ["macros", "rt-multi-thread"] }
