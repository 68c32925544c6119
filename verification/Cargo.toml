[package]
name = "strip_empty_query"
version = "0.1.0"
edition = "2021"
publish = false

[dependencies]
form_urlencoded = "1"
percent-encoding = "2"
http = "1"
tower = "0.5"
