//! The machine's special registers.

pub mod memory;
pub mod timer;
