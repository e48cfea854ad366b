//! Byte-level introspection of ELF64 images and the state of a dual-pane
//! disassembly viewer.
//!
//! The resolver walks every symbol-table section of a raw little-endian ELF64
//! image and resolves each symbol's name offset against the string-table
//! section that the symbol table itself links to, returning one tagged outcome
//! per entry instead of dropping failures. The viewer model keeps a scroll
//! offset that can never underflow and computes visible windows that can never
//! run past the end of a pane. The text layout turns decoded instruction
//! records and register or group names, looked up through the disassembler,
//! into the pane lines the terminal shows.

pub mod disasm;
pub mod elf;
pub mod le;
pub mod resolver;
pub mod viewer;
