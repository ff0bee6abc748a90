[package]
name = "cjs_to_esm"
version = "0.1.0"
edition = "2021"
publish = false

[dependencies]
# Nothing here names serde or swc_common. They are held to the versions that
# swc_core 0.75 builds with: a later one of either breaks its build.
serde = "=1.0.219"
swc_common = "=0.31.6"
swc_core = { version = "=0.75.48", features = ["common", "ecma_ast", "ecma_visit"] }
