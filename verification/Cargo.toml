[package]
name = "share_accounting"
version = "0.1.0"
edition = "2021"
publish = false

[dependencies]
binary_sv2 = "1.2"
framing_sv2 = "2"
primitive-types = "0.12"
roles_logic_sv2 = "1.2.3"
sha2 = "0.10"
