[package]
name = "query_git"
version = "0.1.0"
edition = "2021"
publish = false

[dependencies]
git2 = { version = "=0.18.3", default-features = false }
gitql-ast = "=0.6.0"
gitql-engine = "=0.8.0"
gitql-parser = "=0.7.0"
