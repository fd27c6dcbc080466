[package]
name = "edge"
version = "0.1.0"
edition = "2021"
publish = false

[dependencies]
hyper = "0.10"
url = "1"
serde_json = "1"
handlebars = "*"
pulldown-cmark = "*"
crossbeam = "*"
scoped-pool = "*"
num_cpus = "1"
log = "0.4"
