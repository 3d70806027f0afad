[package]
name = "xwdoc"
version = "0.1.0"
edition = "2021"
publish = false

[dependencies]
serde = { version = "1", features = ["derive"] }
serde_json = "1"
url = "2"
nipper = "0.1"
reqwest = { version = "0.11", default-features = false, features = ["blocking"] }
tokio = { version = "1", features = ["rt-multi-thread", "macros"] }
futures = "0.3"
async-trait = "0.1"
lazy_static = "1"
once_cell = "1"
termcolor = "1"
atty = "0.2"
term_size = "0.3"
textwrap = "0.16"
chrono = "0.4"
base64 = "0.13"
mime_guess = "2"
