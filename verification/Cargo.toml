[package]
name = "sim"
version = "0.11.0"
edition = "2021"
publish = false

[dependencies]
rand = "0.8"
rand_core = "0.6"
rand_distr = "0.4"
rand_pcg = "0.3"
serde = { version = "1", features = ["derive"] }
serde_json = "1"
serde_yaml = "0.9"
num-traits = "0.2"
thiserror = "1"
lazy_static = "1"
wasm-bindgen = "0.2"
js-sys = "0.3"
console_error_panic_hook = "0.1"
