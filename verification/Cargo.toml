[package]
name = "focustrace"
version = "0.1.0"
edition = "2021"
publish = false

[dependencies]
chrono = { version = "0.4", default-features = false, features = ["std", "clock"] }
dirs = "5"
serde = { version = "1", features = ["derive"] }
serde_json = "1"
rusqlite = "0.32"
crossbeam-channel = "0.5"
eframe = { version = "0.29", default-features = false, features = ["default_fonts", "glow"] }
egui_extras = { version = "0.29", default-features = false }
tray-icon = { version = "0.19", default-features = false }
objc2 = "0.5"
objc2-foundation = { version = "0.2", features = ["NSNotification", "NSString", "NSDictionary", "NSObject"] }
objc2-app-kit = { version = "0.2", features = ["NSRunningApplication", "NSWorkspace"] }
core-foundation = "0.9"
