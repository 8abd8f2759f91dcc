[package]
name = "photo_gallery"
version = "0.1.0"
edition = "2021"
publish = false

[dependencies]
uuid = { version = "1", features = ["v4"] }
rexif = "*"
kamadak-exif = "*"
image = { version = "*", default-features = false, features = ["jpeg"] }
turbojpeg = { version = "*", features = ["image"] }
fast_image_resize = "*"
axum = { version = "0.8", features = ["multipart"] }
tokio = { version = "1", features = ["full"] }
sqlx = { version = "0.8", default-features = false, features = ["sqlite", "runtime-tokio", "migrate"] }
tower-cookies = "*"
tower-http = { version = "*", features = ["fs", "limit", "cors", "timeout", "compression-gzip", "compression-br", "compression-deflate"] }
tower_governor = "*"
jsonwebtoken = "9"
argon2 = "0.5"
bcrypt = "*"
serde = { version = "1", features = ["derive"] }
serde_json = "1"
minijinja = { version = "2", features = ["loader"] }
minijinja-autoreload = "2"
dotenv = "0.15"
tracing-subscriber = "0.3"
futures = "0.3"
once_cell = "1"
log = "0.4"
env_logger = "*"
chrono = "0.4"
bytes = "1"
