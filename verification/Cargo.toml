[package]
name = "trezor_canvas"
version = "0.1.0"
edition = "2021"
publish = false

[dependencies]
without-alloc = "*"
static-alloc = "*"
trezor-tjpgdec = "*"
heapless = "*"
cty = "*"
