//! A CHIP-8 virtual machine with its SUPER-CHIP and XO-CHIP extensions.
//!
//! The crate holds the interpreter engine: instruction decoding, the memory
//! and font subsystem, the call stack, the timers, the two-plane display and
//! the fetch-decode-execute cycle. Beside it stand the pure parts of a host:
//! its configuration, the picture it paints and the keys it maps. Every
//! operation carries a contract over a mathematical model of the machine,
//! and the contracts are machine-checked.
//!
//! The engine does no input or output. A host makes a [`chip::Chip8`] for a
//! program image, calls [`chip::Chip8::run_frame`] for each frame, renders
//! the display and plays the audio pattern after it, and tells the machine
//! which keys are held down before the next one.

pub mod chip;
pub mod config;
pub mod display;
pub mod error;
pub mod frame;
pub mod instruction;
pub mod keyboard;
pub mod machine;
pub mod memory;
pub mod platform;
mod raster;
pub mod registers;
pub mod rom;
pub mod screen;
pub mod stack;
