[package]
name = "cucumber_core"
version = "0.1.0"
edition = "2021"
publish = false

[dependencies]
regex = "*"
gherkin_rust = "*"
globwalk = "*"
shh = "*"
