[package]
name = "ems_terrain"
version = "0.1.0"
edition = "2021"
publish = false

[dependencies]
async-trait = "=0.1.92"
bytemuck = { version = "=1.25.2", features = ["derive"] }
chrono = "=0.4.45"
futures = "=0.3.34"
geo-types = "=0.7.20"
geotiff = "=0.1.0"
indicatif = "=0.17.11"
meshopt = "=0.7.0"
reqwest = { version = "=0.12.28", features = ["json"] }
serde = { version = "=1.0.229", features = ["derive"] }
spade = "=2.15.1"
tokio = { version = "=1.54.1", features = ["rt-multi-thread", "macros", "fs", "io-util"] }
