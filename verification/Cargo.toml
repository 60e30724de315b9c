[package]
name = "sps_kinematics"
version = "0.1.0"
edition = "2021"
publish = false

[dependencies]
egui = "=0.24.1"
egui_extras = "=0.24.2"
egui_plot = "=0.24.2"
indicatif = "=0.17.11"
log = "0.4"
regex = "1"
reqwest = { version = "=0.11.27", default-features = false, features = ["rustls-tls"] }
scraper = "=0.19.1"
serde = { version = "1", features = ["derive"] }
tokio = { version = "1", features = ["rt-multi-thread"] }
