[package]
name = "nu_plugin_kdl"
version = "0.1.0"
edition = "2021"
publish = false

[dependencies]
kdl = { version = "=6.7.1", features = ["v1"] }
miette = "=7.6.0"
nu-plugin = "=0.112.2"
nu-protocol = "=0.112.2"
