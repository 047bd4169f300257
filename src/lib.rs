//! A CHIP-8 virtual machine: memory, display, keypad, instruction decoder and
//! interpreter, with every operation stated and proved against a model.

pub mod display;
pub mod error;
pub mod instruction;
pub mod keypad;
pub mod machine;
pub mod memory;
pub mod theorems;
