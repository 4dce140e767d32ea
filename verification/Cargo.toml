[package]
name = "shared"
version = "0.1.0"
edition = "2021"
publish = false

[dependencies]
bevy = { version = "=0.18.1", default-features = false, features = ["std", "bevy_state", "bevy_window", "bevy_sprite", "bevy_text", "bevy_ui", "bevy_render", "bevy_log", "keyboard", "mouse", "touch"] }
wasm-bindgen = "=0.2.130"
js-sys = "=0.3.107"
console_error_panic_hook = "=0.1.7"
