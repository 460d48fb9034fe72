[package]
name = "open_soundpad_core"
version = "0.1.0"
edition = "2021"
publish = false

[dependencies]
uuid = { version = "1", features = ["v4"] }
cpal = "*"
directories = "*"
hound = "*"
ringbuf = "*"
rubato = "*"
audioadapter-buffers = "*"
serde = { version = "1", features = ["derive"] }
serde_json = "1"
