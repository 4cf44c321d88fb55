[package]
name = "lunarcore"
version = "0.1.0"
edition = "2021"
publish = false

[dependencies]
heapless = "0.8"
embedded-hal = "1.0"
log = "0.4"
aes = "0.8"
sha2 = "0.10"
ed25519-dalek = "2"
x25519-dalek = "2"
getrandom = "0.2"
esp-idf-sys = "0.36"
esp-idf-hal = "0.45"
esp-idf-svc = "0.51"
