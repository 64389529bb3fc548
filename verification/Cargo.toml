[package]
name = "rkbx_osc"
version = "0.1.0"
edition = "2021"
publish = false

[dependencies]
serde_json = "1"
reqwest = { version = "*", default-features = false, features = ["blocking"] }
toy-arms = "*"
winapi = { version = "0.3", features = ["winnt", "consoleapi", "processenv", "winbase"] }

[dev-dependencies]
rosc = "*"
