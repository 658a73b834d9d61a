//! An interpreter for the CHIP-8 virtual machine: 4 KiB of memory, sixteen
//! byte registers, a sixteen-entry call stack, two countdown timers, a 64x32
//! monochrome display and a sixteen-key keypad.
//!
//! The machine's behaviour is stated over [`model::CpuModel`], the abstract
//! view of a [`Cpu`]; the executable functions are proved against it.

mod cpu;
pub mod font;
pub mod instruction;
pub mod keymap;
pub mod laws;
pub mod model;
pub use cpu::Cpu;
pub use instruction::{decode, ArithOp, Instruction};
pub use model::{CpuError, CpuModel, Step};
