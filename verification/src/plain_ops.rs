use crate::errors::ParsingError;
use crate::nodes::{Instruction, Node};
use crate::stack_ops::as_node;
use crate::text::{is_word, text};
use crate::tokens::{Token, TokenView};
use vstd::prelude::*;

verus! {

/// The instruction that a mnemonic names, among those that take no parameter.
pub open spec fn plain_instruction(mnemonic: Seq<u8>) -> Option<Instruction> {
    if mnemonic == text("assert") {
        Some(Instruction::Assert)
    } else if mnemonic == text("assert_eq") {
        Some(Instruction::AssertEq)
    } else if mnemonic == text("assertz") {
        Some(Instruction::Assertz)
    } else if mnemonic == text("add") {
        Some(Instruction::Add)
    } else if mnemonic == text("sub") {
        Some(Instruction::Sub)
    } else if mnemonic == text("mul") {
        Some(Instruction::Mul)
    } else if mnemonic == text("div") {
        Some(Instruction::Div)
    } else if mnemonic == text("neg") {
        Some(Instruction::Neg)
    } else if mnemonic == text("inv") {
        Some(Instruction::Inv)
    } else if mnemonic == text("not") {
        Some(Instruction::Not)
    } else if mnemonic == text("and") {
        Some(Instruction::And)
    } else if mnemonic == text("or") {
        Some(Instruction::Or)
    } else if mnemonic == text("xor") {
        Some(Instruction::Xor)
    } else if mnemonic == text("eq") {
        Some(Instruction::Eq)
    } else if mnemonic == text("neq") {
        Some(Instruction::Neq)
    } else if mnemonic == text("lt") {
        Some(Instruction::Lt)
    } else if mnemonic == text("lte") {
        Some(Instruction::Lte)
    } else if mnemonic == text("gt") {
        Some(Instruction::Gt)
    } else if mnemonic == text("gte") {
        Some(Instruction::Gte)
    } else if mnemonic == text("u32checked_add") {
        Some(Instruction::U32CheckedAdd)
    } else if mnemonic == text("u32wrapping_add") {
        Some(Instruction::U32WrappingAdd)
    } else if mnemonic == text("u32overflowing_add") {
        Some(Instruction::U32OverflowingAdd)
    } else if mnemonic == text("u32checked_sub") {
        Some(Instruction::U32CheckedSub)
    } else if mnemonic == text("u32wrapping_sub") {
        Some(Instruction::U32WrappingSub)
    } else if mnemonic == text("u32overflowing_sub") {
        Some(Instruction::U32OverflowingSub)
    } else if mnemonic == text("u32checked_mul") {
        Some(Instruction::U32CheckedMul)
    } else if mnemonic == text("u32wrapping_mul") {
        Some(Instruction::U32WrappingMul)
    } else if mnemonic == text("u32overflowing_mul") {
        Some(Instruction::U32OverflowingMul)
    } else if mnemonic == text("drop") {
        Some(Instruction::Drop)
    } else if mnemonic == text("dropw") {
        Some(Instruction::DropW)
    } else if mnemonic == text("padw") {
        Some(Instruction::PadW)
    } else if mnemonic == text("cswap") {
        Some(Instruction::CSwap)
    } else if mnemonic == text("cswapw") {
        Some(Instruction::CSwapW)
    } else if mnemonic == text("cdrop") {
        Some(Instruction::CDrop)
    } else if mnemonic == text("cdropw") {
        Some(Instruction::CDropW)
    } else {
        None
    }
}

/// What `parse_plain` returns for a statement: the instruction that the
/// mnemonic names, if the statement is the mnemonic alone.
pub open spec fn spec_parse_plain(op: TokenView) -> Result<Instruction, ParsingError> {
    if op.parts.len() == 0 {
        Err(ParsingError::MissingParam { step: op.pos })
    } else {
        match plain_instruction(op.parts[0]) {
            Some(instruction) => if op.parts.len() == 1 {
                Ok(instruction)
            } else {
                Err(ParsingError::ExtraParam { step: op.pos })
            },
            None => Err(ParsingError::InvalidOp { step: op.pos }),
        }
    }
}

/// The instruction that `mnemonic` names, among those that take no parameter.
pub fn read_plain(mnemonic: &[u8]) -> (r: Option<Instruction>)
    ensures
        r == plain_instruction(mnemonic@),
{
    if is_word(mnemonic, "assert") {
        Some(Instruction::Assert)
    } else if is_word(mnemonic, "assert_eq") {
        Some(Instruction::AssertEq)
    } else if is_word(mnemonic, "assertz") {
        Some(Instruction::Assertz)
    } else if is_word(mnemonic, "add") {
        Some(Instruction::Add)
    } else if is_word(mnemonic, "sub") {
        Some(Instruction::Sub)
    } else if is_word(mnemonic, "mul") {
        Some(Instruction::Mul)
    } else if is_word(mnemonic, "div") {
        Some(Instruction::Div)
    } else if is_word(mnemonic, "neg") {
        Some(Instruction::Neg)
    } else if is_word(mnemonic, "inv") {
        Some(Instruction::Inv)
    } else if is_word(mnemonic, "not") {
        Some(Instruction::Not)
    } else if is_word(mnemonic, "and") {
        Some(Instruction::And)
    } else if is_word(mnemonic, "or") {
        Some(Instruction::Or)
    } else if is_word(mnemonic, "xor") {
        Some(Instruction::Xor)
    } else if is_word(mnemonic, "eq") {
        Some(Instruction::Eq)
    } else if is_word(mnemonic, "neq") {
        Some(Instruction::Neq)
    } else if is_word(mnemonic, "lt") {
        Some(Instruction::Lt)
    } else if is_word(mnemonic, "lte") {
        Some(Instruction::Lte)
    } else if is_word(mnemonic, "gt") {
        Some(Instruction::Gt)
    } else if is_word(mnemonic, "gte") {
        Some(Instruction::Gte)
    } else if is_word(mnemonic, "u32checked_add") {
        Some(Instruction::U32CheckedAdd)
    } else if is_word(mnemonic, "u32wrapping_add") {
        Some(Instruction::U32WrappingAdd)
    } else if is_word(mnemonic, "u32overflowing_add") {
        Some(Instruction::U32OverflowingAdd)
    } else if is_word(mnemonic, "u32checked_sub") {
        Some(Instruction::U32CheckedSub)
    } else if is_word(mnemonic, "u32wrapping_sub") {
        Some(Instruction::U32WrappingSub)
    } else if is_word(mnemonic, "u32overflowing_sub") {
        Some(Instruction::U32OverflowingSub)
    } else if is_word(mnemonic, "u32checked_mul") {
        Some(Instruction::U32CheckedMul)
    } else if is_word(mnemonic, "u32wrapping_mul") {
        Some(Instruction::U32WrappingMul)
    } else if is_word(mnemonic, "u32overflowing_mul") {
        Some(Instruction::U32OverflowingMul)
    } else if is_word(mnemonic, "drop") {
        Some(Instruction::Drop)
    } else if is_word(mnemonic, "dropw") {
        Some(Instruction::DropW)
    } else if is_word(mnemonic, "padw") {
        Some(Instruction::PadW)
    } else if is_word(mnemonic, "cswap") {
        Some(Instruction::CSwap)
    } else if is_word(mnemonic, "cswapw") {
        Some(Instruction::CSwapW)
    } else if is_word(mnemonic, "cdrop") {
        Some(Instruction::CDrop)
    } else if is_word(mnemonic, "cdropw") {
        Some(Instruction::CDropW)
    } else {
        None
    }
}

/// Parses an operation that takes no parameter.
pub fn parse_plain(op: &Token) -> (r: Result<Node, ParsingError>)
    ensures
        r == as_node(spec_parse_plain(op@)),
{
    if op.num_parts() == 0 {
        return Err(ParsingError::missing_param(op));
    }
    match read_plain(op.part(0)) {
        Some(instruction) => if op.num_parts() == 1 {
            Ok(Node::Instruction(instruction))
        } else {
            Err(ParsingError::extra_param(op))
        },
        None => Err(ParsingError::invalid_op(op)),
    }
}

} // verus!
