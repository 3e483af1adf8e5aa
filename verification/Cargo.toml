[package]
name = "mod_cod_barras"
version = "0.1.0"
edition = "2021"
publish = false

[dependencies]
chrono = { version = "0.4", default-features = false, features = ["std"] }
clipboard = "0.5"
color-print = "0.3"
crossterm = "0.27"
rustyline = "12"
