[package]
name = "cfs_telemetry"
version = "0.1.0"
edition = "2021"
publish = false

[dependencies.bevy]
version = "=0.19.1"
default-features = false
features = [
    "std",
    "bevy_asset",
    "bevy_log",
    "bevy_animation",
    "gltf_animation",
    "bevy_gltf",
    "bevy_light",
    "bevy_ui",
    "bevy_text",
    "bevy_window",
    "default_font",
    "keyboard",
    "mouse",
]
