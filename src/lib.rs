//! A CHIP-8 virtual machine: memory, registers, display, keypad state,
//! instruction decoding and the fetch-decode-execute engine.

pub mod args;
pub mod display;
pub mod instruction;
pub mod interpreter;
pub mod interrupt;
pub mod keyboard;
pub mod memory;
pub mod registers;
