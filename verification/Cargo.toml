[package]
name = "winmine"
version = "0.1.0"
edition = "2021"
publish = false

[dependencies]
winsafe = { version = "=0.0.29", features = ["gui", "advapi", "htmlhelp", "winmm", "shell", "gdi", "user", "kernel", "comctl"] }
windows-sys = { version = "=0.61.2", features = ["Win32_Foundation", "Win32_Graphics_Gdi", "Win32_Data_HtmlHelp"] }
