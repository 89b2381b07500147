//! A minimal 4-bit computer: a nibble value type, a 16-opcode instruction
//! set, a two-pass assembler producing a 256-nibble memory image, and a
//! cycle-stepped emulator with a memory-mapped peripheral hook mechanism.

pub mod nibble;
pub mod isa;
pub mod ext;
pub mod emulator;
pub mod util;
pub mod assembler;
pub mod lexing;
pub mod codegen;
pub mod emit;
