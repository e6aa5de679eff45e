//! The decision logic of the Ergohaven keyboard and trackball firmware.
//!
//! Everything here is a plain state machine: it is told what happened (a motion
//! event, a controller message, the outcome of a bus transfer) and answers what
//! to do next (a mouse report to send, a packet to write, a register to poke).
//! The firmware around it moves bytes and waits.

pub mod arith;
pub mod atomic;
pub mod click;
pub mod clock;
pub mod event;
pub mod font;
pub mod history;
pub mod mini_v30;
pub mod mini_v31;
pub mod motion;
pub mod oled;
pub mod royale;
pub mod settings_reset;
