[package]
name = "desktop_dye"
version = "0.1.0"
edition = "2021"
publish = false

[dependencies]
color-thief = "=0.2.2"
pigmnts = "=0.7.0"
lab = "=0.11.0"
prisma = "=0.1.1"
angular-units = "=0.2.4"
anyhow = "=1.0.104"
serde = { version = "=1.0.229", features = ["derive"] }
serde_yaml = "=0.9.34"
serde_json = "=1.0.154"
dirs = "=5.0.1"
png = "=0.17.16"
reqwest = { version = "=0.11.27", default-features = false, features = ["json"] }
tokio = { version = "=1.54.1", default-features = false, features = ["macros", "rt", "time"] }
colored = "=2.2.0"
spinners = "=4.2.0"
chrono = { version = "=0.4.45", default-features = false, features = ["clock"] }
rand = "=0.8.8"
optional_struct = "=0.3.2"
screenshots = "0.5"
