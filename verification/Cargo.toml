[package]
name = "webview_custom"
version = "0.1.0"
edition = "2021"
publish = false

[dependencies]
http = "=1.5.0"
url = "=2.5.8"
once_cell = "=1.21.4"
reqwest = { version = "=0.12.28", default-features = false, features = ["blocking", "rustls-tls"] }
webview2-com = "=0.39.1"
windows = { version = "=0.62.2", features = ["Win32_UI_Shell", "Win32_System_Com"] }
windows-core = "=0.62.2"
