[package]
name = "cosmic_files"
version = "0.1.0"
edition = "2021"
publish = false

[dependencies]
shlex = "=1.3.0"
md-5 = "=0.10.6"
url = "=2.5.8"
dirs = "=6.0.0"
trash = "=5.2.9"
mime_guess = "=2.0.5"
regex = "=1.13.1"
log = "=0.4.35"
globset = "=0.4.21"
icu = "=1.5.0"
walkdir = "=2.5.0"
flate2 = "1"
tar = "0.4"
zip = { version = "2", default-features = false, features = ["deflate", "aes-crypto"] }
