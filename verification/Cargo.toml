[package]
name = "blog_replay"
version = "0.1.0"
edition = "2021"
publish = false

[dependencies]
anyhow = "*"
atom_syndication = "*"
bincode = "1"
chrono = "*"
clap = "*"
confy = "*"
directories = "*"
indicatif = "*"
reqwest = { version = "*", default-features = false, features = ["blocking", "json"] }
serde = { version = "*", features = ["derive"] }
sled = "*"
