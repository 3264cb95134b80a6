//! A CHIP-8 virtual machine core: instruction interpreter, bit-packed
//! framebuffer with XOR sprite compositing, bounded call stack, keypad and
//! timers. Every function carries a contract that Verus proves.

pub mod cpu;
pub mod display;
pub mod display_laws;
pub mod errors;
pub mod font;
pub mod frame;
pub mod globals;
pub mod machine;
pub mod machine_laws;
pub mod utils;

pub use cpu::Cpu;
pub use display::Display;
pub use errors::ChipError;
