[package]
name = "watchdog"
version = "0.1.0"
edition = "2021"
publish = false

[dependencies]
base64 = "0.13"
chrono = "0.4"
sysinfo = "0.9"
libc = "0.2"
tiny_http = "0.12"
serde = { version = "1", features = ["derive"] }
serde_derive = "1"
serde_json = "1"
json = "0.12"
signal-hook = "0.3"
http_req = { version = "*", default-features = false }
urlencoding = "2"
json_pretty = "*"
winapi = { version = "0.3", features = ["minwindef", "winnt", "processthreadsapi"] }
