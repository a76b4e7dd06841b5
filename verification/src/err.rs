//! The assembler's error taxonomy.
//!
//! Every failure is fatal: the assembler performs no recovery and emits
//! no partial output.  Each variant carries the offending token or
//! source line verbatim, for diagnostics.

use vstd::prelude::*;

verus! {

/// Spec-level image of an [`AsmError`]: the same five variants, with the
/// carried text as a `Seq<char>`.
pub enum SpecAsmError {
    UnknownRegister(Seq<char>),
    UnknownOpcode(Seq<char>),
    MalformedLiteral(Seq<char>),
    UndefinedLabel(Seq<char>),
    UnsupportedOperandShape(Seq<char>),
}

/// A fatal assembly error, carrying the offending token or line.
#[derive(Debug, PartialEq, Eq)]
pub enum AsmError {
    /// A register operand matched neither an `xN` name nor an ABI alias.
    UnknownRegister(Vec<char>),
    /// A mnemonic handed directly to the instruction table was not in it.
    UnknownOpcode(Vec<char>),
    /// A numeric literal did not parse in its radix, or overflowed 32 bits.
    MalformedLiteral(Vec<char>),
    /// A branch or jump target was never declared as a label.
    UndefinedLabel(Vec<char>),
    /// The line's operand count fits no rule for its mnemonic.
    UnsupportedOperandShape(Vec<char>),
}

impl View for AsmError {
    type V = SpecAsmError;

    open spec fn view(&self) -> SpecAsmError {
        match self {
            AsmError::UnknownRegister(t) => SpecAsmError::UnknownRegister(t@),
            AsmError::UnknownOpcode(t) => SpecAsmError::UnknownOpcode(t@),
            AsmError::MalformedLiteral(t) => SpecAsmError::MalformedLiteral(t@),
            AsmError::UndefinedLabel(t) => SpecAsmError::UndefinedLabel(t@),
            AsmError::UnsupportedOperandShape(t) => SpecAsmError::UnsupportedOperandShape(t@),
        }
    }
}

/// Maps an executable result onto the spec plane: the word unchanged,
/// the error through its view.
pub open spec fn res_view<T>(r: Result<T, AsmError>) -> Result<T, SpecAsmError> {
    match r {
        Ok(v) => Ok(v),
        Err(e) => Err(e@),
    }
}

/// Maps a whole-program result onto the spec plane: the word sequence
/// and the error both through their views.
pub open spec fn res_vec_view(r: Result<Vec<u32>, AsmError>) -> Result<Seq<u32>, SpecAsmError> {
    match r {
        Ok(v) => Ok(v@),
        Err(e) => Err(e@),
    }
}

} // verus!
