[package]
name = "a653rs-router"
version = "0.1.0"
edition = "2021"
publish = false

[dependencies]
a653rs = "=0.6.1"
a653rs-linux = { version = "=0.2.2", features = ["socket"] }
bytesize = "=1.3.3"
cobs = "=0.2.3"
crc16 = "=0.4.0"
darling = "=0.20.11"
heapless = "=0.7.17"
postcard = { version = "=1.1.3", features = ["alloc"] }
serde = { version = "=1.0.229", features = ["derive"] }
serde_yaml = "=0.9.34"
syn = { version = "=2.0.119", features = ["full"] }
uart_xilinx = "=0.2.0"
