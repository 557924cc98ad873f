[package]
name = "blueprint"
version = "0.1.0"
edition = "2021"
publish = false

[dependencies]
actix-cors = "0.6"
actix-multipart = { version = "0.6", default-features = false }
actix-web = "=4.18.1"
async-channel = "=1.9.0"
azure_identity = { version = "=0.14.0", default-features = false, features = ["enable_reqwest_rustls"] }
azure_security_keyvault = { version = "=0.14.0", default-features = false, features = ["enable_reqwest_rustls"] }
azure_storage = { version = "=0.14.0", default-features = false, features = ["enable_reqwest_rustls"] }
azure_storage_blobs = { version = "=0.14.0", default-features = false, features = ["enable_reqwest_rustls"] }
bson = "=2.15.0"
bytes = "=1.12.1"
cache_loader_async = { version = "=0.2.1", features = ["lru-cache"] }
env_logger = { version = "0.10", default-features = false }
futures = "=0.3.34"
globset = "=0.4.20"
image = { version = "=0.24.9", default-features = false, features = ["gif", "jpeg", "ico", "png", "pnm", "tga", "tiff", "webp", "bmp", "hdr", "dds", "farbfeld", "jpeg_rayon", "qoi"] }
imageproc = "=0.23.1"
itertools = "=0.11.0"
log = "=0.4.34"
mongodb = "=2.8.2"
serde = { version = "=1.0.229", features = ["derive"] }
serde_json = "=1.0.154"
time = { version = "=0.3.55", features = ["serde", "macros", "formatting", "parsing"] }
tokio = { version = "=1.54.1", features = ["full"] }
uuid = { version = "1", features = ["v4"] }
zip = { version = "0.6", default-features = false, features = ["deflate"] }
