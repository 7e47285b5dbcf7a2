[package]
name = "mic"
version = "0.1.0"
edition = "2021"
publish = false

[dependencies]
chrono = "0.4"
csv = "1"
encoding_rs = "0.8"
quick-xml = "*"
serde = { version = "1", features = ["derive"] }
serde_json = "1"
thiserror = "*"
rusqlite = { version = "*", features = ["bundled"] }
jetdb = "*"
calamine = "*"
zip = { version = "*", default-features = false, features = ["deflate"] }
rust_xlsxwriter = "*"
image = { version = "*", default-features = false, features = ["jpeg", "png"] }
fast_image_resize = "*"
tracing = "*"
