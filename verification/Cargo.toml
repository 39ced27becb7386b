[package]
name = "groth16"
version = "0.1.0"
edition = "2021"
publish = false

[dependencies]
lambdaworks-math = "*"
wasm-bindgen = "0.2"
serde = { version = "1", features = ["derive"] }
serde-wasm-bindgen = "*"
console_error_panic_hook = "0.1"
getrandom = { version = "0.2", features = ["js"] }
