//! A CHIP-8 virtual machine: memory, registers, call stack, timers, keypad and
//! a monochrome display, driven one instruction at a time.

pub mod constants;
pub mod semantics;
pub mod random;
pub mod sprite;
pub mod text;
pub mod chip8;
pub mod laws;
