[package]
name = "crash_analyzer"
version = "0.1.0"
edition = "2021"
publish = false

[dependencies]
async-trait = "=0.1.92"
breakpad-symbols = "=0.19.1"
console_error_panic_hook = "=0.1.7"
futures = "=0.3.34"
js-sys = "=0.3.106"
minidump = "=0.19.1"
minidump-common = "=0.19.1"
minidump-processor = "=0.19.1"
serde = { version = "=1.0.229", features = ["derive"] }
serde_json = "=1.0.154"
wasm-bindgen = "=0.2.129"
wasm-bindgen-futures = "*"
web-sys = { version = "=0.3.106", features = ["Blob", "File", "FileReader"] }
