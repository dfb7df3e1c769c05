[package]
name = "auditor"
version = "0.1.0"
edition = "2021"
publish = false

[dependencies]
regex = "=1.13.1"
xmltree = { version = "=0.12.0", features = ["attribute-sorted"] }
serde = { version = "*", features = ["derive"] }
serde_json = "*"
walkdir = "*"
http_req = "*"
rayon = "*"
indicatif = "*"
