[package]
name = "obs_chzzk_extension"
version = "0.1.0"
edition = "2021"
publish = false

[dependencies]
getrandom = "0.2"
serde_json = "1"
ureq = { version = "2", features = ["json"] }
cxx-qt = "0.7"
cxx-qt-lib = "0.7"
