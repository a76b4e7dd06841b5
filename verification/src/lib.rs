//! A two-pass assembler for a subset of the RISC-V RV32I instruction set.
//!
//! Source text goes in, one statement per line; a sequence of 32-bit
//! machine-code words comes out.  The crate covers register-name
//! resolution, numeric-literal parsing, the six RV32I instruction
//! formats, mnemonic dispatch, pseudo-instruction expansion, and the
//! two-pass label resolution that ties them together.
//!
//! Every function's behaviour is pinned by its contract: the whole
//! assembly is specified by [`assembler::spec_assemble`], a function of
//! the source text alone, and [`assembler::assemble`] is proved to
//! return exactly that.

pub mod assembler;
pub mod encode;
pub mod err;
pub mod hex;
pub mod labels;
pub mod literals;
pub mod registers;
pub mod table;
pub mod text;
