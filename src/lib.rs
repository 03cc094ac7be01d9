//! An interpreter for the CHIP-8 virtual machine: the opcode decoder, the
//! instruction executor with its run states, the timers, and the framebuffer
//! with XOR drawing and collision detection. Each is proved against a
//! mathematical model of the machine in `machine`.

pub mod chip8;
pub mod cpu;
pub mod display;
pub mod font;
pub mod instruction;
pub mod machine;
