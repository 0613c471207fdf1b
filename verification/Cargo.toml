[package]
name = "recipe_ranger"
version = "0.1.0"
edition = "2021"
publish = false

[dependencies]
rand = "0.8"
serde = { version = "1", features = ["derive"] }
serde_json = "1"
tokio = { version = "1", features = ["macros", "rt-multi-thread"] }
axum = "0.7"
bcrypt = "*"
jsonwebtoken = "*"
chrono = "0.4"
dotenv = "0.15"
openai = "*"
reqwest = { version = "0.12", default-features = false }
