//! A verified simulator for a toy von Neumann machine: a two-pass assembler
//! that translates a small symbolic instruction language into a fixed
//! 100-word memory image, and a fetch-decode-execute engine that runs that
//! image.
//!
//! The crate is organised along the machine's components:
//! - [`opcodes`]: the instruction codec, a lossless mapping between decoded
//!   instructions and their 16-bit numeric form;
//! - [`mailbox`]: the 100-word memory with its raw binary image format;
//! - [`lexer`]: tokenizes source lines and collects the label table;
//! - [`assembler`]: resolves operands and emits encoded instructions;
//! - [`runtime`]: the execution engines, with and without the stack
//!   discipline layered on the flat memory;
//! - [`error`]: assembly-time diagnostics;
//! - [`compact`]: the reduced instruction codec used by the minimal host
//!   variant (no MULT, PUSH, POP and no addressing modes).

pub mod assembler;
pub mod compact;
pub mod error;
pub mod lexer;
pub mod mailbox;
pub mod opcodes;
pub mod runtime;
