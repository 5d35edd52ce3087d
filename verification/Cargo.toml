[package]
name = "memscan"
version = "0.1.0"
edition = "2021"
publish = false

[dependencies]
neon = { version = "0.10", default-features = false, features = ["napi-6", "promise-api", "task-api"] }
windows = { version = "0.39", features = ["Win32_Foundation", "Win32_System_Diagnostics_Debug", "Win32_System_Diagnostics_ToolHelp", "Win32_System_Memory", "Win32_System_ProcessStatus", "Win32_System_Threading"] }
