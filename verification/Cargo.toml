[package]
name = "fractal_synaesthesia"
version = "0.1.0"
edition = "2021"
publish = false

[dependencies]
num_cpus = "1"
threadpool = "1"
serde = { version = "1", features = ["derive"] }
thiserror = "*"
dashu-float = "*"
macroquad = "*"
egui = "*"
hound = "*"
futures = "*"
kira = "*"
aubio-rs = "*"
ffmpeg-next = "*"
