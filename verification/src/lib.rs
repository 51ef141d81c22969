//! A debugger for C programs on macOS.
//!
//! The library holds what the debugger decides and computes. What it needs of the operating system it
//! asks for: see [`tape`].
pub mod addr_map;
pub mod arch;
pub mod breakpoint;
pub mod bytes;
pub mod commands;
pub mod debug_info;
pub mod debugger;
pub mod disasm;
pub mod disasm_laws;
pub mod dwarf;
pub mod expr;
pub mod info_laws;
pub mod kernel_laws;
pub mod leak_tracker;
pub mod line_program;
pub mod mach;
pub mod names;
pub mod numerals;
pub mod object_file;
pub mod path;
pub mod register;
pub mod register_laws;
pub mod stub_finder;
pub mod stub_laws;
pub mod symbol_laws;
pub mod symbols;
pub mod tape;
pub mod text;
pub mod text_laws;
