[package]
name = "electrico"
version = "0.1.0"
edition = "2021"
publish = false

[dependencies]
mime_guess = "2"
urlencoding = "2"
substring = "1"
serde = { version = "1", features = ["derive"] }
serde_json = "1"
log = "0.4"
uuid = { version = "1", features = ["v4"] }
directories = "*"
json_comments = "0.2"
include_dir = "0.7"
tempfile = "3"
