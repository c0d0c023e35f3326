//! A CHIP-8 virtual machine whose fetch-decode-execute engine is verified.
//!
//! The machine state lives in [`chip::Chip8`]; its mathematical model and the
//! per-instruction transition functions live in [`model`]; general laws of the
//! instruction set are proved in [`laws`].

pub mod chip;
pub mod laws;
pub mod model;

pub use chip::load_program;
pub use chip::Chip8;
pub use chip::RomError;
