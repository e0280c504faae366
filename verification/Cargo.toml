[package]
name = "cheesecake"
version = "0.1.0"
edition = "2021"
publish = false

[dependencies]
base64 = "=0.13.1"
chrono = "=0.4.45"
directories = "=6.0.0"
dotenv = "=0.15.0"
fernet = "=0.1.4"
glob = "=0.3.4"
html-escape = "=0.2.15"
openssl = "=0.10.81"
regex = "=1.13.1"
rocket = { version = "=0.5.2", features = ["json"] }
rocket_dyn_templates = { version = "=0.2.0", features = ["tera"] }
rusqlite = { version = "=0.41.0", features = ["bundled", "chrono"] }
serde = { version = "=1.0.229", features = ["derive"] }
serde_json = "=1.0.154"
tempfile = "=3.27.0"
