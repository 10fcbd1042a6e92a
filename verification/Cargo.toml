[package]
name = "dpia"
version = "0.1.0"
edition = "2021"
publish = false

[dependencies]
crc = "=3.4.0"
byteorder = { version = "=1.5.0", default-features = false }
heapless = "=0.9.3"
embassy-time = { version = "=0.5.1", features = ["std"] }
embedded-hal-async = "=1.0.0"
embassy-futures = "=0.1.2"
embassy-sync = "=0.7.2"
bytemuck = { version = "=1.25.2", features = ["derive"] }
defmt = "=1.2.0"
embassy-rp = "*"
embassy-executor = "*"
embassy-net = "*"
cyw43 = "*"
cyw43-pio = "*"
reqwless = "*"
trouble-host = "*"
max7219 = "*"
static_cell = "*"
defmt-rtt = "*"
panic-probe = "*"
