use crate::tokens::Token;
use vstd::prelude::*;

verus! {

/// Why a source text was rejected.
///
/// `step` is the position of the offending statement in the source, counted in
/// statements from zero; `param` is the index of the offending part of that
/// statement (part zero is the mnemonic).
#[derive(Clone, Copy, Debug, PartialEq, Eq, Structural)]
pub enum ParsingError {
    /// The statement has fewer parts than the operation needs.
    MissingParam { step: usize },
    /// The statement has more parts than any form of the operation takes.
    ExtraParam { step: usize },
    /// A part is present but is not a value the operation accepts.
    InvalidParam { step: usize, param: usize },
    /// The mnemonic, or the sub-mnemonic of its family, is not known here.
    InvalidOp { step: usize },
    /// The block opened at `step` is still open where the source ends.
    UnterminatedBlock { step: usize },
    /// An `end` or `else` at `step` closes no open block.
    UnexpectedBlockClose { step: usize },
    /// A local call names a procedure that was not declared before it, or an
    /// imported call names a module that was not imported.
    UndeclaredProcedure { step: usize },
    /// A procedure of this name was declared before.
    DuplicateProcedure { step: usize },
    /// More procedures are declared than a local index can number.
    TooManyProcedures { step: usize },
    /// A program's source ends before its `begin`.
    MissingBody,
}

impl ParsingError {
    pub fn missing_param(op: &Token) -> (e: ParsingError)
        ensures
            e == (ParsingError::MissingParam { step: op@.pos }),
    {
        ParsingError::MissingParam { step: op.pos() }
    }

    pub fn extra_param(op: &Token) -> (e: ParsingError)
        ensures
            e == (ParsingError::ExtraParam { step: op@.pos }),
    {
        ParsingError::ExtraParam { step: op.pos() }
    }

    pub fn invalid_param(op: &Token, param: usize) -> (e: ParsingError)
        ensures
            e == (ParsingError::InvalidParam { step: op@.pos, param }),
    {
        ParsingError::InvalidParam { step: op.pos(), param }
    }

    pub fn invalid_op(op: &Token) -> (e: ParsingError)
        ensures
            e == (ParsingError::InvalidOp { step: op@.pos }),
    {
        ParsingError::InvalidOp { step: op.pos() }
    }
}

/// Why a byte stream was rejected by the decoder.
#[derive(Clone, Copy, Debug, PartialEq, Eq, Structural)]
pub enum DecodeError {
    /// The stream ends inside a value, or a length prefix asks for more than is left.
    UnexpectedEnd,
    /// The stream starts with a format version this decoder does not read.
    UnsupportedVersion { version: u8 },
    /// No node or instruction has this tag.
    UnknownTag { tag: u8 },
    /// A field holds a value outside its domain: the kind of another stream,
    /// a flag that is neither 0 nor 1, a field element that is not reduced,
    /// or a procedure whose name does not come after the name before it.
    InvalidValue,
}

} // verus!
