[package]
name = "text_adventure_game"
version = "0.1.0"
edition = "2021"
publish = false

[dependencies]
rust-ini = "*"
regex = "*"
convert_case = "*"
csscolorparser = "*"
indexmap = "*"
clap = { version = "*", features = ["derive"] }
cursive = { version = "*", default-features = false, features = ["crossterm-backend"] }
thiserror = "*"
tracing = "*"
tracing-subscriber = { version = "*", features = ["env-filter"] }
