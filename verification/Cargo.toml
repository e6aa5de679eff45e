[package]
name = "ergohaven"
version = "0.1.0"
edition = "2021"
publish = false

# The features are those of a host, for the tests; a firmware build takes the Cortex-M
# ones. It also adds rmk 0.8, which `app/` runs the keyboards on, and nrf-mpsl, whose
# interrupt handlers it links. Neither stands here: `src/` and `tests/` use none of them,
# and a host build of rmk crashes rustc.
[dependencies]
cortex-m = "=0.7.10"
cortex-m-rt = "=0.7.7"
critical-section = { version = "=1.2.0", features = ["std"] }
defmt = "=1.2.0"
embassy-executor = { version = "=0.9.1", features = ["arch-std", "executor-thread"] }
embassy-nrf = { version = "=0.8.0", default-features = false, features = ["nrf52840", "time"] }
embassy-time = { version = "=0.5.1", features = ["std", "generic-queue-8"] }
static_cell = "=2.1.1"
usbd-hid = "=0.9.0"
