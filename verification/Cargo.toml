[package]
name = "winwifi"
version = "0.1.0"
edition = "2021"
publish = false

[dependencies]
send_wrapper = "=0.6.0"
thiserror = "=2.0.21"
windows-core = "=0.62.2"
winio = { version = "=0.10.0", features = ["winui", "plotters"] }
winio-callback = "=0.1.2"
winio-winui3 = "=0.3.9"
windows-sys = { version = "=0.61.2", features = ["Win32_Foundation", "Win32_NetworkManagement_WiFi"] }
