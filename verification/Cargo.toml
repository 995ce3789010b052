[package]
name = "witx"
version = "0.1.0"
edition = "2021"
publish = false

[dependencies]
glob = "0.3"
pretty_env_logger = "0.5"
structopt = "0.3"
