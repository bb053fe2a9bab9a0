//! A CHIP-8 virtual machine: machine state, instruction decoder and a
//! fetch-decode-execute engine whose behaviour is stated in contracts over a
//! mathematical model of the machine and proved against them.
//!
//! The host owns the loop. It loads a program, sets the keypad, calls
//! [`CHIP8::cycle`] once per instruction and [`CHIP8::tick_timers`] sixty
//! times a second, and reads the display. A cycle either succeeds or returns
//! a [`Fault`] and leaves the machine as it was.

pub mod error;
pub mod decode;
pub mod font;
pub mod machine;
pub mod semantics;
pub mod draw;
pub mod engine;
pub mod dump;
pub mod theorems;
mod rng;

pub use crate::decode::{decode, Instruction, Operation};
pub use crate::error::{ErrorKind, Fault};
pub use crate::font::FONT;
pub use crate::machine::CHIP8;
