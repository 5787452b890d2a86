[package]
name = "schulte_table"
version = "0.1.0"
edition = "2021"
publish = false

[dependencies]
directories = "5"
rand = "0.8"
