[package]
name = "herocrab"
version = "0.1.0"
edition = "2021"
publish = false

[dependencies]
clap = "=2.34.0"
ntapi = { version = "=0.3.7", features = ["beta"] }
serde_json = "=1.0.154"
widestring = "=0.4.3"
winapi = { version = "=0.3.9", features = ["debugapi", "errhandlingapi", "fileapi", "handleapi", "libloaderapi", "memoryapi", "minwindef", "ntdef", "processthreadsapi", "psapi", "synchapi", "sysinfoapi", "tlhelp32", "windef", "winnt", "winuser"] }
