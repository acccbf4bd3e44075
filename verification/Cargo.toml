[package]
name = "stt_pipeline"
version = "0.1.0"
edition = "2021"
publish = false

[dependencies]
cpal = "=0.15.3"
rubato = "=0.12.0"
tokio = { version = "=1.54.1", features = ["macros", "rt-multi-thread", "time"] }
webrtc-vad = "=0.4.0"
whisper-rs = "=0.5.0"
