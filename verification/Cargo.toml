[package]
name = "nuscenes-data"
version = "0.3.0"
edition = "2021"
publish = false

[dependencies]
hex = "0.4"
itertools = "0.10"
rayon = "1"
serde = { version = "1", features = ["derive"] }
serde_json = "1"
chrono = { version = "0.4", features = ["serde"] }
thiserror = "1"
tokio = { version = "1", features = ["fs", "rt", "rt-multi-thread"] }
futures = "0.3"
nalgebra = "*"
image = { version = "*", default-features = false, features = ["jpeg", "png"] }
pcd-rs = "*"
anyhow = "1"
