[package]
name = "cdk_drive_updater"
version = "0.1.0"
edition = "2021"
publish = false

[dependencies]
anyhow = "=1.0.104"
chrono = "=0.4.45"
dotenvy = "=0.15.7"
fern = "=0.7.1"
log = "=0.4.35"
reqwest = { version = "=0.13.5", features = ["blocking"] }
scraper = "=0.29.0"
url = "=2.5.8"
version-compare = "=0.2.1"
walkdir = "=2.5.0"
windows-sys = { version = "=0.61.2", features = ["Win32_Storage_FileSystem"] }
winreg = "=0.56.0"
