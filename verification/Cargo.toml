[package]
name = "preemptive_scheduler"
version = "0.1.0"
edition = "2021"
publish = false

[dependencies]
bit-iter = "=1.4.0"
unicycle = "=0.7.1"
woke = "=0.0.4"
spin = "=0.12.3"
lazy_static = "=1.5.1"
log = "=0.4.34"
cfg-if = "=1.0.5"
x86_64 = { version = "=0.15.5", default-features = false, features = ["instructions"] }
riscv = "=0.16.1"
cortex-a = { version = "=8.1.1", default-features = false }
tock-registers = "=0.8.1"
