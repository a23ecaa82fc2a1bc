[package]
name = "gedcomx_edtf"
version = "0.1.0"
edition = "2021"
publish = false

[dependencies]
gedcomx_date = "*"
libc = "*"
