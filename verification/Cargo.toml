[package]
name = "robswebhub"
version = "0.1.0"
edition = "2021"
publish = false

[dependencies]
actix-files = "0.6"
actix-web = "4"
actix-web-flash-messages = { version = "0.4", features = ["cookies"] }
anyhow = "1"
chrono = { version = "0.4", default-features = false, features = ["clock", "std"] }
config = { version = "0.13", default-features = false, features = ["yaml"] }
itertools = "0.12"
plotters = { version = "0.3", default-features = false, features = ["bitmap_backend", "bitmap_encoder", "chrono", "line_series"] }
serde = { version = "1", features = ["derive"] }
serde-aux = "4"
sqlx = { version = "0.7", default-features = false, features = ["chrono", "postgres", "runtime-tokio", "uuid"] }
uuid = { version = "1", features = ["serde", "v4"] }
