[package]
name = "rustle"
version = "0.1.0"
edition = "2021"
publish = false

[dependencies]
anyhow = "1"
chrono = "0.4"
directories = "*"
log = "0.4"
pretty_env_logger = "*"
rayon = "1"
reqwest = { version = "*", features = ["blocking"] }
robots_txt = "*"
select = "*"
serde = { version = "1", features = ["derive"] }
sqlite = "*"
thiserror = "*"
toml = "*"
url = "2"
