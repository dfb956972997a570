[package]
name = "uniasset-audioplayer"
version = "0.1.0"
edition = "2021"
publish = false

[dependencies]
arc-swap = "=1.9.3"
parking_lot = "=0.12.5"
oboe = "=0.6.1"
ohos-audio-sys = { version = "=0.1.6", features = ["api-17"] }
coreaudio-sys = "=0.2.18"
block2 = "=0.6.2"
objc2 = "=0.6.5"
objc2-foundation = "=0.3.2"
windows-core = "=0.62.2"
windows = { version = "=0.62.2", features = ["Win32_Foundation", "Win32_Media_Audio", "Win32_Media_KernelStreaming", "Win32_Media_Multimedia", "Win32_Security", "Win32_System_Com", "Win32_System_Com_StructuredStorage", "Win32_System_Threading", "Win32_System_Variant"] }
