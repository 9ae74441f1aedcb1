[package]
name = "papers"
version = "0.1.0"
edition = "2021"
publish = false

[dependencies]
anyhow = "=1.0.104"
arxiv-rs = "*"
chrono = "=0.4.45"
config = { version = "=0.14.1", default-features = false, features = ["ini"] }
dashmap = "=6.2.1"
deunicode = "=1.6.2"
futures = "=0.3.34"
mysql_async = { version = "=0.34.2", default-features = false, features = ["minimal"] }
orcid = "=0.2.3"
pico-args = "=0.5.0"
pubmed = "=0.2.2"
rand = "0.9"
regex = "=1.13.1"
reqwest = { version = "=0.13.5", features = ["json"] }
serde_json = "=1.0.154"
tokio = { version = "=1.54.1", features = ["full"] }
tracing = "=0.1.44"
tracing-subscriber = { version = "=0.3.23", features = ["env-filter"] }
wikibase = "=0.7.9"
