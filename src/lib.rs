//! A CHIP-8 virtual machine: memory, registers, call stack, display,
//! timers and keypad, driven one instruction at a time by the host.

pub mod error;
pub mod model;
pub mod machine;
pub mod cpu;
pub mod laws;

pub use error::Chip8Error;
pub use machine::Chip8;
pub use model::{SCREEN_HEIGHT, SCREEN_WIDTH};
