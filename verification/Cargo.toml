[package]
name = "judge_backend"
version = "0.1.0"
edition = "2021"
publish = false

[dependencies]
actix-cors = "=0.5.4"
actix-files = "=0.5.0"
actix-identity = "=0.3.1"
actix-multipart = "=0.3.0"
actix-web = "=3.3.3"
chrono = { version = "=0.4.45", features = ["serde"] }
diesel = { version = "=1.4.8", features = ["postgres", "r2d2", "chrono", "uuidv07", "serde_json"] }
dotenv = "=0.15.0"
env_logger = "=0.8.4"
futures = "=0.3.34"
lazy_static = "=1.5.1"
lettre = "=0.10.4"
log = "=0.4.34"
rand = "=0.8.8"
reqwest = { version = "=0.11.27", features = ["blocking", "multipart", "json"] }
sanitize-filename = "=0.3.0"
serde = { version = "=1.0.229", features = ["derive"] }
serde_json = "=1.0.154"
serde_qs = { version = "=0.8.5", features = ["actix"] }
sha2 = "=0.9.9"
structopt = "=0.3.26"
uuid = { version = "=0.8.2", features = ["v4", "serde"] }
