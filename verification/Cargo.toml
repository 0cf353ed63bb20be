[package]
name = "rsspls"
version = "0.11.3"
edition = "2021"
publish = false

[dependencies]
anydate = "=0.5.0"
atomicwrites = "=0.4.4"
basic-toml = "=0.1.10"
cryptoxide = { version = "=0.6.7", features = ["blake2", "digest"] }
dirs = "=7.0.0"
futures = "=0.3.34"
jaq-core = "=3.1.2"
jaq-json = "=2.0.3"
jaq-std = "=3.0.4"
log = "=0.4.35"
lol_html = "=2.9.0"
mime_guess = "=2.0.5"
pretty_env_logger = "=0.5.0"
reqwest = { version = "=0.12.28", default-features = false, features = ["rustls-tls"] }
rss = "=2.1.2"
scraper = "=0.29.0"
serde = { version = "=1.0.229", features = ["derive"] }
simple-eyre = "=0.3.1"
time = { version = "=0.3.55", features = ["formatting", "parsing"] }
tokio = { version = "=1.54.1", features = ["macros", "process", "rt-multi-thread"] }
url = "=2.5.8"
