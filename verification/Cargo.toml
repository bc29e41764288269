[package]
name = "form_fields"
version = "0.1.0"
edition = "2021"
publish = false

[dependencies]
form_urlencoded = "=1.2.2"
axum = "=0.8.9"
multer = "=3.1.0"
maud = { version = "=0.27.0", features = ["axum"] }
log = "=0.4.34"
