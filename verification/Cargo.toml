[package]
name = "robot_harness"
version = "0.1.0"
edition = "2021"
publish = false

[dependencies]
base64 = "*"
image = { version = "*", default-features = false, features = ["jpeg"] }
serde = { version = "*", features = ["derive"] }
serde_json = "*"
schemars = "*"
gray_matter = "*"
dirs = "*"
tokio = { version = "*", features = ["full"] }
futures = "*"
async-trait = "*"
reqwest = { version = "0.12", default-features = false, features = ["json", "stream"] }
reqwest-eventsource = "*"
crossterm = { version = "*", features = ["event-stream"] }
ratatui = "*"
ratatui-textarea = "*"
tui-markdown = "*"
nokhwa = { version = "*", features = ["input-native"] }
minifb = { version = "*", default-features = false, features = ["x11"] }
