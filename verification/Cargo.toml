[package]
name = "convert_typst_math_to_mathml"
version = "0.1.0"
edition = "2021"
publish = false

[dependencies]
typst = "0.13"
typst-eval = "0.13"
unicode-math-class = "0.1"
