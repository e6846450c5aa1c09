[package]
name = "haber_bosch"
version = "0.1.0"
edition = "2021"
publish = false

[dependencies]
ode_solvers = "=0.6.2"
plotters = { version = "=0.3.7", default-features = false, features = ["all_series", "all_elements", "full_palette", "bitmap_backend", "bitmap_encoder"] }
plotters-canvas = "=0.3.1"
wasm-bindgen = "=0.2.129"
console_error_panic_hook = "=0.1.7"
