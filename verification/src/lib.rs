//! A verified interpreter for the CHIP-8 virtual machine.
//!
//! `model` states what one cycle does to the machine's state, `display` what
//! a sprite draw does to the screen, and `laws` proves what follows from
//! both. `machine` holds the interpreter that runs, proved to do what the
//! model says; `rng` is its source of random bytes.

pub mod display;
pub mod laws;
pub mod machine;
pub mod model;
pub mod rng;

pub use machine::Chip8;
pub use machine::{CHIP8_HEIGHT, CHIP8_WIDTH};
pub use model::Fault;
