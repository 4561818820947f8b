[package]
name = "geth_trace"
version = "0.1.0"
edition = "2021"
publish = false

[dependencies]
revm = { version = "=3.3.0", default-features = false, features = ["std"] }
# revm is made of the three crates below and names them with open version
# ranges. They are held here at the versions that revm 3.3.0 was released
# with: the later ones that the ranges admit changed their types, and revm
# 3.3.0 does not build with them.
revm-interpreter = { version = "=1.1.2", default-features = false }
revm-precompile = { version = "=2.0.3", default-features = false }
revm-primitives = { version = "=1.1.2", default-features = false }
