[package]
name = "component_state"
version = "0.1.0"
edition = "2021"
publish = false

[dependencies]
async-graphql = { version = "*", default-features = false, features = ["dynamic-schema"] }
chrono = { version = "0.4", default-features = false, features = ["std", "serde"] }
serde = { version = "1", features = ["derive"] }
sqlx = { version = "*", default-features = false, features = ["sqlite", "chrono", "derive", "macros"] }
