[package]
name = "macos-c-debugger"
version = "0.1.0"
edition = "2021"
publish = false

[dependencies]
capstone = "=0.12.0"
gimli = "=0.34.0"
libc = "=0.2.191"
object = "=0.40.0"
