//! A CHIP-8 virtual machine whose decoder and execution engine are verified.
//!
//! The library holds the machine state (memory, registers, timers, call
//! stack, keypad latch, framebuffer), decodes two-byte instruction words, and
//! executes them one at a time.  Every executable function carries a contract
//! that pins its effect on the machine state down to a mathematical model.
//! Display output, keyboard input and configuration loading are left to the
//! embedding program, which reaches the machine through plain values and the
//! `System` trait.

pub mod chip8options;
pub mod emulator;
pub mod laws;
pub mod opcode;
