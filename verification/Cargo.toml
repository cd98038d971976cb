[package]
name = "tower"
version = "0.1.0"
edition = "2021"
publish = false

[dependencies]
im = "15"
unicode-xid = "0.2"
unicode-segmentation = "1"
llvm-sys = "170"
