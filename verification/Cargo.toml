[package]
name = "aid"
version = "0.1.0"
edition = "2021"
publish = false

[dependencies]
async-trait = "*"
chrono = { version = "*", features = ["serde"] }
dirs = "*"
env_logger = "*"
getopts = "*"
libc = "*"
llama_cpp_rs = "*"
log = "*"
pulldown-cmark = "*"
regex = "*"
reqwest = { version = "*", default-features = false, features = ["json", "stream", "rustls-tls"] }
serde = { version = "*", features = ["derive"] }
serde_json = "*"
termcolor = "*"
termimad = "*"
tokio = { version = "*", features = ["rt-multi-thread", "macros"] }
tokio-stream = "*"
