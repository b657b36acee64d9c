//! A CHIP-8 virtual machine: memory, registers, call stack, timers,
//! framebuffer, keypad and the instruction engine, with each opcode's
//! behaviour stated as a contract over a mathematical model of the machine.
pub mod error;
pub mod machine;
pub mod model;
pub mod stack;
pub mod theorems;

pub use error::Chip8Error;
pub use machine::Chip8;
pub use model::{
    Chip8Implementation, Fault, FONT_ADDRESS, HEIGHT, MAX_ROM_SIZE, MEMORY_SIZE, ROM_ADDRESS, WIDTH,
};
pub use stack::{Stack, STACK_DEPTH};
