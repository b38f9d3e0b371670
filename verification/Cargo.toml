[package]
name = "pyqir"
version = "0.1.0"
edition = "2021"
publish = false

[dependencies]
inkwell = { version = "=0.5.0", features = ["llvm14-0-force-dynamic"] }
llvm-sys = { version = "=140.1.3", features = ["force-dynamic"] }
log = "=0.4.35"
mut_static = "=5.0.0"
pyo3 = "=0.22.6"
