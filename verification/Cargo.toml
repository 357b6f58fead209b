[package]
name = "scoundrel"
version = "0.1.0"
edition = "2021"
publish = false

[dependencies]
rand = "0.9"
leptos = { version = "0.8", features = ["csr"] }
leptos_router = "0.8"
