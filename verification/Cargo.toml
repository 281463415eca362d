[package]
name = "simple_performance_dashboard"
version = "0.1.0"
edition = "2021"
publish = false

[dependencies]
chrono = "0.4"
parking_lot = "0.12"
sysinfo = "0.32"
nvml-wrapper = "0.10"
raw-cpuid = "11"
log = "0.4"
eframe = { version = "0.29", default-features = false, features = ["glow", "default_fonts"] }
egui = "0.29"
egui_plot = "0.29"
