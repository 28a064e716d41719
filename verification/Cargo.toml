[package]
name = "phanalist"
version = "0.1.0"
edition = "2021"
publish = false

[dependencies]
clap = { version = "=4.6.7", features = ["derive"] }
exitcode = "=1.1.2"
mago-interner = "=0.26.1"
mago-names = "=0.26.1"
mago-php-version = "=0.26.1"
mago-project = "=0.26.1"
mago-source = "=0.26.1"
mago-syntax = "=0.26.1"
php-parser-rs = "=0.1.3"
walkdir = "=2.5.0"
