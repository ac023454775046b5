[package]
name = "balatro_bot"
version = "0.1.0"
edition = "2021"
publish = false

[dependencies]
serde = { version = "1", features = ["derive"] }
serde_repr = "0.1"
serde_json_path_to_error = "0.1"
mlua = { version = "0.10", features = ["lua54", "module", "macros", "serialize"] }
