[package]
name = "sockchat"
version = "0.1.0"
edition = "2021"
publish = false

[dependencies]
csscolorparser = "=0.7.2"
