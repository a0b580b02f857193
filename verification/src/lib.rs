//! A two-pass assembler for a small instruction set of 32-bit instructions
//! in three formats.
//!
//! [`parser::parse`] turns a source text into the lines of its encoding:
//! the first pass, [`parser::parse_symbols`], builds the symbol table of the
//! labels and aliases that the source declares, and the second pass,
//! [`parser::assemble`], resolves the operands of each instruction line and
//! writes the four bytes of its encoding as text.

pub mod datakind;
pub mod error;
pub mod laws;
pub mod mnemonic;
pub mod numeral;
pub mod parser;
pub mod symbols;
pub mod text;
