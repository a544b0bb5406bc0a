[package]
name = "zip_pw_finder"
version = "0.1.0"
edition = "2021"
publish = false

[dependencies]
zip = { version = "=8.6.0", default-features = false, features = ["deflate", "aes-crypto"] }
crossbeam-channel = "=0.5.17"
indicatif = "=0.18.6"
num_cpus = "=1.17.0"
