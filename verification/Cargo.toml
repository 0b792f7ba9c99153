[package]
name = "dirnav"
version = "0.1.0"
edition = "2021"
publish = false

[dependencies]
mime_guess = "=2.0.5"
cursive = { version = "=0.21.1", features = ["toml"] }
parking_lot = "=0.13.0"
once_cell = "=1.21.4"
structopt = "=0.3.26"
config = { version = "=0.15.27", default-features = false, features = ["json"] }
serde = { version = "=1.0.229", features = ["derive"] }
failure = "=0.1.8"
tokio = { version = "=1.54.1", features = ["fs", "rt", "rt-multi-thread"] }
ssh2 = "=0.9.6"
rpassword = "=7.5.4"

[dev-dependencies]
number_prefix = "=0.4.0"
