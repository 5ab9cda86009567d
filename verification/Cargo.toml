[package]
name = "smbr"
version = "0.1.0"
edition = "2021"
publish = false

[dependencies]
smb2 = "*"
tokio = { version = "1", features = ["rt"] }
