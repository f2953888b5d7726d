[package]
name = "bms_rs"
version = "0.1.0"
edition = "2021"
publish = false

[dependencies]
fraction = "*"
rand = "0.9"
strict-num-extended = "*"
serde = { version = "*", features = ["derive"] }
serde_json = "*"
serde_path_to_error = "*"
thiserror = "*"
itertools = "*"
num = "*"
gametime = "*"
chumsky = "*"
ariadne = "*"
