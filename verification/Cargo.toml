[package]
name = "yamete_kudasai_system"
version = "0.1.0"
edition = "2021"
publish = false

[dependencies]
regex = "1"
dirs = "6"
fs2 = "0.4"
libc = "0.2"
rodio = "0.21"
ureq = "3"
winreg = "*"
