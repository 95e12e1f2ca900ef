[package]
name = "wlanscan"
version = "0.1.0"
edition = "2021"
publish = false

[dependencies]
windows = { version = "=0.58.0", features = ["Win32_Foundation", "Win32_NetworkManagement_WiFi", "Data_Xml_Dom"] }
