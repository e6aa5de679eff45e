# Ergohaven firmware logic

The decision logic of the Ergohaven keyboards and trackballs (nRF52840), verified
with Verus.

- `src/` is the library: state machines that are told what happened and answer what to
  do next.
  - `motion`: ball motion to mouse reports, in normal, scroll and sniper mode
  - `history`: what holds of the reports over time
  - `royale`, `mini_v30`, `mini_v31`: how each trackball picks its mode and what its
    buttons mean
  - `oled`, `font`: the status display of the Lily58 Pro
  - `settings_reset`: the register accesses that erase all stored settings
  - `clock`, `click`, `event`, `atomic`, `arith`: what these share
- `app/` is the firmware around it: channels, timers, buses and registers. `main.rs` is
  the settings reset; `trackball_v31.rs`, `lily58pro.rs`, `velvet_ui.rs` and
  `k03_hardreset.rs` are the roots of the other programs.
- `tests/` runs the library on concrete values.

The clock is that of `embassy-time`. On the host its `std` driver provides it, on the chip
that of `embassy-nrf`. The trackballs and keyboards run on RMK, which takes their key maps
from a `keyboard.toml`.
