[package]
name = "display_info"
version = "0.1.0"
edition = "2021"
publish = false

[dependencies]
fxhash = "=0.2.1"
widestring = "=1.2.1"
xcb = { version = "=1.7.1", features = ["randr"] }
smithay-client-toolkit = { version = "=0.21.1", default-features = false }
