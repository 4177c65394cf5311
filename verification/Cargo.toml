[package]
name = "pricetracker"
version = "0.1.0"
edition = "2021"
publish = false

[dependencies]
select = "0.6"
rusqlite = { version = "*", features = ["bundled"] }
reqwest = { version = "*", default-features = false }
tokio = { version = "1", features = ["macros", "rt-multi-thread"] }
rouille = "3"
