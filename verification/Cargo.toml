[package]
name = "upload-service"
version = "0.1.0"
edition = "2021"
publish = false

[dependencies]
base64 = "*"
hex = "*"
sha2 = "*"
url = "*"
serde = { version = "1", features = ["derive"] }
serde_json = "1"
quick-xml = { version = "*", features = ["serialize"] }
actix-web = { version = "4", default-features = false, features = ["macros"] }
actix-multipart = { version = "*", default-features = false }
futures-util = "0.3"
reqwest = { version = "*", default-features = false, features = ["json"] }
