[package]
name = "grackle_zero"
version = "0.1.0"
edition = "2021"
publish = false

[dependencies]
landlock = "=0.4.7"
lddtree = "=0.5.1"
nix = { version = "=0.31.3", features = ["process", "signal", "fs", "feature"] }
which = "=8.0.6"
winapi = { version = "=0.3.9", features = ["sddl", "winbase"] }
windows = { version = "=0.59.0", features = ["Win32_Foundation", "Win32_Security", "Win32_Security_Isolation", "Win32_System_Threading", "Win32_System_JobObjects", "Win32_System_Pipes", "Win32_System_Console"] }
windows-result = "=0.3.4"
windows-sys = { version = "=0.61.2", features = ["Win32_Foundation", "Win32_Security", "Win32_System_Console", "Win32_System_JobObjects", "Win32_System_Threading"] }
