[package]
name = "audio_recorder_rs"
version = "0.1.0"
edition = "2021"
publish = false

[dependencies]
cpal = "0.17"
crossbeam-channel = "0.5"
dasp_sample = "0.11"
num-traits = "0.2"
ringbuf = "0.4"
rubato = "0.16"
tracing = "0.1"

[dev-dependencies]
hound = "3.5"
