[package]
name = "votol"
version = "0.1.0"
edition = "2021"
publish = false

[dependencies]
max7219 = "=0.5.0"
binary-layout = "=4.0.2"
embassy-stm32 = { version = "=0.6.0", features = ["stm32f103c8"] }
embassy-executor = { version = "=0.9.1", features = ["arch-std", "executor-thread"] }
embassy-time = "=0.5.1"
defmt = "=1.2.0"
defmt-rtt = "=1.3.1"
panic-probe = "=1.0.0"
