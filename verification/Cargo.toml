[package]
name = "diskclone"
version = "0.1.0"
edition = "2021"
publish = false

[dependencies]
clap = { version = "4", features = ["derive"] }
eframe = { version = "0.29", default-features = false, features = ["default_fonts", "glow"] }
ssh2 = "0.9"
thiserror = "1"
widestring = "1"
winapi = { version = "0.3", features = ["fileapi", "handleapi", "ioapiset", "minwindef", "winbase", "winioctl", "winnt"] }
