//! A CHIP-8 virtual machine whose instruction semantics are stated as a
//! mathematical model (`semantics`) and proved for the executable emulator
//! (`emulator`, `instructions`).

pub mod semantics;
pub mod emulator;
mod instructions;
mod dispatch;
mod frame;
mod random;
pub mod laws;

pub use emulator::{Emulator, chip8_plugin};
pub use frame::keypad_index;
pub use semantics::Chip8State;
