[package]
name = "savon"
version = "0.1.0"
edition = "2021"
publish = false

[dependencies]
xmltree = { version = "*", features = ["attribute-order"] }

[dev-dependencies]
case = "*"
