[package]
name = "ssid"
version = "0.1.0"
edition = "2021"
publish = false

[dependencies]
neli = "0.6"
log = "0.4"
objc2-core-wlan = "*"
objc2-foundation = "*"
objc2-network-extension = "*"
block2 = "*"
windows = { version = "0.58", features = ["Win32_Foundation", "Win32_NetworkManagement_WiFi"] }
