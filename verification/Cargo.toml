[package]
name = "depcheck_core"
version = "0.1.0"
edition = "2021"
publish = false

[dependencies]
crossbeam = "=0.8.5"
eyre = "=0.6.14"
ignore = "=0.4.33"
log = "=0.4.34"
num_cpus = "=1.17.0"
relative-path = "1.9"
serde = { version = "=1.0.219", features = ["derive"] }
serde_json = "1"
swc_common = "=0.33.26"
swc_ecma_ast = "=0.110.17"
swc_ecma_dep_graph = "=0.113.22"
swc_ecma_parser = { version = "0.141", default-features = false, features = ["typescript"] }
