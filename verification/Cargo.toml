[package]
name = "bgcat"
version = "2.0.0"
edition = "2021"
publish = false

[dependencies]
actix-files = "0.6"
actix-multipart = "0.7"
actix-session = { version = "0.10", default-features = false, features = ["cookie-session"] }
actix-web = { version = "4", default-features = false, features = ["macros", "cookies"] }
actix-web-httpauth = "0.8"
chrono = { version = "0.4", default-features = false, features = ["clock"] }
config = { version = "0.14", default-features = false, features = ["toml"] }
fern = { version = "0.6", features = ["colored"] }
image = { version = "0.25", default-features = false, features = ["png", "jpeg"] }
lazy_static = "1"
log = "0.4"
mime = "0.3"
serde = { version = "1", features = ["derive"] }
serde_json = "1"
serde_urlencoded = "0.7"
slug = "0.1"
tera = { version = "1", default-features = false }
utoipa = { version = "4", features = ["actix_extras"] }
webp = { version = "0.3", default-features = false, features = ["img"] }
