//! Toolchain core for the KAP-16, a 16-bit processor.
//!
//! The instruction codec ([`inst`]) maps every instruction to a word and
//! back, and reads and writes the assembler's syntax. The assembler
//! ([`assembler`]) splits source lines into tokens ([`lex`], [`line`]),
//! builds the tree of scopes of each file ([`scope`], [`symbols`]),
//! turns references to labels into displacements ([`resolve`]), links the
//! files ([`unit`]) and encodes the lines. The emulator ([`emu`]) runs
//! the fetch-decode-execute cycle of the processor ([`proc`]) over its
//! registers ([`reg`]) and its memory ([`ram`]), with the arithmetic and
//! the condition flags of [`alu`].

use vstd::prelude::*;

pub mod alu;
pub mod assembler;
pub mod emu;
pub mod inst;
pub mod lex;
pub mod line;
pub mod proc;
pub mod ram;
pub mod reg;
pub mod resolve;
pub mod scope;
pub mod symbols;
pub mod text;
pub mod unit;
pub mod util;

verus! {

/// Size of one machine word in bytes.
pub const WORDSIZE: u16 = 2;

} // verus!
