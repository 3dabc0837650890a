//! RISC-V 64 code generation: registers, instruction encoders and the walk
//! over the syntax tree that emits machine words.

pub mod decode;
pub mod immediate;
pub mod jmp;
pub mod register;
pub mod regs;
pub mod word;
