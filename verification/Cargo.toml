[package]
name = "sysy_lower"
version = "0.1.0"
edition = "2021"
publish = false

[dependencies]
koopa = "*"
lalrpop-util = "*"
