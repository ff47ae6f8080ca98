//! A CHIP-8 virtual machine: memory, registers, call stack, timer, a
//! monochrome framebuffer and a 16-key input device, with the semantics of
//! every instruction stated in contracts and proved.

pub mod chip8;
pub mod instr;
pub mod keyboard;
pub mod laws;
pub mod monitor;
