[package]
name = "voice_cmd"
version = "0.1.0"
edition = "2021"
publish = false

[dependencies]
anyhow = "=1.0.104"
clap = { version = "=4.6.7", features = ["derive"] }
cpal = "=0.15.3"
directories = "=5.0.1"
flate2 = "=1.1.10"
gtk4 = "=0.11.5"
gtk4-layer-shell = "=0.8.1"
hound = "=3.5.1"
kokoro-tts = "=0.2.2"
libc = "=0.2.191"
rodio = "=0.20.1"
serde = { version = "=1.0.229", features = ["derive"] }
serde_json = "=1.0.154"
shell-words = "=1.1.1"
tar = "=0.4.46"
tempfile = "=3.27.0"
tokio = { version = "=1.54.1", features = ["full"] }
toml = "=0.8.23"
transcribe-rs = "=0.2.9"
ureq = "=2.12.1"
vad-rs = "=0.1.5"
