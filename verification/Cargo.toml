[package]
name = "capture_pipeline"
version = "0.1.0"
edition = "2021"
publish = false

[dependencies]
ac-ffmpeg = "=0.19.0"
anyhow = "=1.0.104"
cidre = "=0.29.0"
core-media-rs = "=0.3.5"
crabgrab = { version = "=0.4.0", features = ["bitmap", "dx11"] }
pollster = "=1.0.1"
screencapturekit = "=11.1.0"
windows = { version = "=0.52.0", features = ["Foundation", "Graphics_DirectX_Direct3D11", "Media_Core", "Media_MediaProperties", "Media_Transcoding", "Security_Cryptography", "Storage", "Storage_Streams"] }
