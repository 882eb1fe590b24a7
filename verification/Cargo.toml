[package]
name = "epics_gen"
version = "0.1.0"
edition = "2021"

[dependencies]
calamine = "*"
regex = "*"
