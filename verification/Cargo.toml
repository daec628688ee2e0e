[package]
name = "fas_rs"
version = "0.1.0"
edition = "2021"
publish = false

[dependencies]
anyhow = "=1.0.104"
atomic = "=0.5.3"
cpu_cycles_reader = "=1.2.0"
log = "=0.4.34"
mlua = { version = "=0.12.2", features = ["lua54", "vendored"] }
touch_event = "=0.1.3"
yata = "=0.6.3"
