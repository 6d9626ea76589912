use crate::errors::ParsingError;
use crate::nodes::{Instruction, Node};
use crate::text::{depth_literal, read_depth};
use crate::tokens::{Token, TokenView};
use vstd::prelude::*;

verus! {

/// The result of an instruction parser as a node of the tree.
pub open spec fn as_node(r: Result<Instruction, ParsingError>) -> Result<Node, ParsingError> {
    match r {
        Ok(instruction) => Ok(Node::Instruction(instruction)),
        Err(e) => Err(e),
    }
}

/// The rule that the depth-selector families share. The statement is the
/// mnemonic alone, which stands for `default`, the instruction of the
/// family's least legal depth, or the mnemonic and one depth literal, which
/// stands for what `table` holds at that depth. A part that is no literal of a
/// legal depth is an invalid parameter.
pub open spec fn depth_op(
    op: TokenView,
    default: Instruction,
    table: spec_fn(nat) -> Option<Instruction>,
) -> Result<Instruction, ParsingError> {
    if op.parts.len() == 0 {
        Err(ParsingError::MissingParam { step: op.pos })
    } else if op.parts.len() == 1 {
        Ok(default)
    } else if op.parts.len() == 2 {
        match depth_literal(op.parts[1]) {
            Some(depth) => match table(depth) {
                Some(instruction) => Ok(instruction),
                None => Err(ParsingError::InvalidParam { step: op.pos, param: 1 }),
            },
            None => Err(ParsingError::InvalidParam { step: op.pos, param: 1 }),
        }
    } else {
        Err(ParsingError::ExtraParam { step: op.pos })
    }
}

// DUP
// ================================================================================================

/// The instruction of the `dup` family for a depth, where the depth is legal.
pub open spec fn dup_at(depth: nat) -> Option<Instruction> {
    if depth == 0 {
        Some(Instruction::Dup0)
    } else if depth == 1 {
        Some(Instruction::Dup1)
    } else if depth == 2 {
        Some(Instruction::Dup2)
    } else if depth == 3 {
        Some(Instruction::Dup3)
    } else if depth == 4 {
        Some(Instruction::Dup4)
    } else if depth == 5 {
        Some(Instruction::Dup5)
    } else if depth == 6 {
        Some(Instruction::Dup6)
    } else if depth == 7 {
        Some(Instruction::Dup7)
    } else if depth == 8 {
        Some(Instruction::Dup8)
    } else if depth == 9 {
        Some(Instruction::Dup9)
    } else if depth == 10 {
        Some(Instruction::Dup10)
    } else if depth == 11 {
        Some(Instruction::Dup11)
    } else if depth == 12 {
        Some(Instruction::Dup12)
    } else if depth == 13 {
        Some(Instruction::Dup13)
    } else if depth == 14 {
        Some(Instruction::Dup14)
    } else if depth == 15 {
        Some(Instruction::Dup15)
    } else {
        None
    }
}

/// What `parse_dup` returns for a statement.
pub open spec fn spec_parse_dup(op: TokenView) -> Result<Instruction, ParsingError> {
    depth_op(op, Instruction::Dup0, |depth: nat| dup_at(depth))
}

/// Parses `dup`: duplicates the stack item at depth 0 to 15; depth 0 where none is given.
pub fn parse_dup(op: &Token) -> (r: Result<Node, ParsingError>)
    ensures
        r == as_node(spec_parse_dup(op@)),
{
    let node = match op.num_parts() {
        0 => return Err(ParsingError::missing_param(op)),
        1 => Node::Instruction(Instruction::Dup0),
        2 => match read_depth(op.part(1)) {
            Some(0) => Node::Instruction(Instruction::Dup0),
            Some(1) => Node::Instruction(Instruction::Dup1),
            Some(2) => Node::Instruction(Instruction::Dup2),
            Some(3) => Node::Instruction(Instruction::Dup3),
            Some(4) => Node::Instruction(Instruction::Dup4),
            Some(5) => Node::Instruction(Instruction::Dup5),
            Some(6) => Node::Instruction(Instruction::Dup6),
            Some(7) => Node::Instruction(Instruction::Dup7),
            Some(8) => Node::Instruction(Instruction::Dup8),
            Some(9) => Node::Instruction(Instruction::Dup9),
            Some(10) => Node::Instruction(Instruction::Dup10),
            Some(11) => Node::Instruction(Instruction::Dup11),
            Some(12) => Node::Instruction(Instruction::Dup12),
            Some(13) => Node::Instruction(Instruction::Dup13),
            Some(14) => Node::Instruction(Instruction::Dup14),
            Some(15) => Node::Instruction(Instruction::Dup15),
            _ => return Err(ParsingError::invalid_param(op, 1)),
        },
        _ => return Err(ParsingError::extra_param(op)),
    };
    Ok(node)
}

// DUPW
// ================================================================================================

/// The instruction of the `dupw` family for a depth, where the depth is legal.
pub open spec fn dupw_at(depth: nat) -> Option<Instruction> {
    if depth == 0 {
        Some(Instruction::DupW0)
    } else if depth == 1 {
        Some(Instruction::DupW1)
    } else if depth == 2 {
        Some(Instruction::DupW2)
    } else if depth == 3 {
        Some(Instruction::DupW3)
    } else {
        None
    }
}

/// What `parse_dupw` returns for a statement.
pub open spec fn spec_parse_dupw(op: TokenView) -> Result<Instruction, ParsingError> {
    depth_op(op, Instruction::DupW0, |depth: nat| dupw_at(depth))
}

/// Parses `dupw`: duplicates the stack word at depth 0 to 3; depth 0 where none is given.
pub fn parse_dupw(op: &Token) -> (r: Result<Node, ParsingError>)
    ensures
        r == as_node(spec_parse_dupw(op@)),
{
    let node = match op.num_parts() {
        0 => return Err(ParsingError::missing_param(op)),
        1 => Node::Instruction(Instruction::DupW0),
        2 => match read_depth(op.part(1)) {
            Some(0) => Node::Instruction(Instruction::DupW0),
            Some(1) => Node::Instruction(Instruction::DupW1),
            Some(2) => Node::Instruction(Instruction::DupW2),
            Some(3) => Node::Instruction(Instruction::DupW3),
            _ => return Err(ParsingError::invalid_param(op, 1)),
        },
        _ => return Err(ParsingError::extra_param(op)),
    };
    Ok(node)
}

// SWAP
// ================================================================================================

/// The instruction of the `swap` family for a depth, where the depth is legal.
pub open spec fn swap_at(depth: nat) -> Option<Instruction> {
    if depth == 1 {
        Some(Instruction::Swap)
    } else if depth == 2 {
        Some(Instruction::Swap2)
    } else if depth == 3 {
        Some(Instruction::Swap3)
    } else if depth == 4 {
        Some(Instruction::Swap4)
    } else if depth == 5 {
        Some(Instruction::Swap5)
    } else if depth == 6 {
        Some(Instruction::Swap6)
    } else if depth == 7 {
        Some(Instruction::Swap7)
    } else if depth == 8 {
        Some(Instruction::Swap8)
    } else if depth == 9 {
        Some(Instruction::Swap9)
    } else if depth == 10 {
        Some(Instruction::Swap10)
    } else if depth == 11 {
        Some(Instruction::Swap11)
    } else if depth == 12 {
        Some(Instruction::Swap12)
    } else if depth == 13 {
        Some(Instruction::Swap13)
    } else if depth == 14 {
        Some(Instruction::Swap14)
    } else if depth == 15 {
        Some(Instruction::Swap15)
    } else {
        None
    }
}

/// What `parse_swap` returns for a statement.
pub open spec fn spec_parse_swap(op: TokenView) -> Result<Instruction, ParsingError> {
    depth_op(op, Instruction::Swap, |depth: nat| swap_at(depth))
}

/// Parses `swap`: swaps the top of the stack with the item at depth 1 to 15; depth 1 where none is given.
pub fn parse_swap(op: &Token) -> (r: Result<Node, ParsingError>)
    ensures
        r == as_node(spec_parse_swap(op@)),
{
    let node = match op.num_parts() {
        0 => return Err(ParsingError::missing_param(op)),
        1 => Node::Instruction(Instruction::Swap),
        2 => match read_depth(op.part(1)) {
            Some(1) => Node::Instruction(Instruction::Swap),
            Some(2) => Node::Instruction(Instruction::Swap2),
            Some(3) => Node::Instruction(Instruction::Swap3),
            Some(4) => Node::Instruction(Instruction::Swap4),
            Some(5) => Node::Instruction(Instruction::Swap5),
            Some(6) => Node::Instruction(Instruction::Swap6),
            Some(7) => Node::Instruction(Instruction::Swap7),
            Some(8) => Node::Instruction(Instruction::Swap8),
            Some(9) => Node::Instruction(Instruction::Swap9),
            Some(10) => Node::Instruction(Instruction::Swap10),
            Some(11) => Node::Instruction(Instruction::Swap11),
            Some(12) => Node::Instruction(Instruction::Swap12),
            Some(13) => Node::Instruction(Instruction::Swap13),
            Some(14) => Node::Instruction(Instruction::Swap14),
            Some(15) => Node::Instruction(Instruction::Swap15),
            _ => return Err(ParsingError::invalid_param(op, 1)),
        },
        _ => return Err(ParsingError::extra_param(op)),
    };
    Ok(node)
}

// SWAPW
// ================================================================================================

/// The instruction of the `swapw` family for a depth, where the depth is legal.
pub open spec fn swapw_at(depth: nat) -> Option<Instruction> {
    if depth == 1 {
        Some(Instruction::SwapW)
    } else if depth == 2 {
        Some(Instruction::SwapW2)
    } else if depth == 3 {
        Some(Instruction::SwapW3)
    } else {
        None
    }
}

/// What `parse_swapw` returns for a statement.
pub open spec fn spec_parse_swapw(op: TokenView) -> Result<Instruction, ParsingError> {
    depth_op(op, Instruction::SwapW, |depth: nat| swapw_at(depth))
}

/// Parses `swapw`: swaps the top word with the word at depth 1 to 3; depth 1 where none is given.
pub fn parse_swapw(op: &Token) -> (r: Result<Node, ParsingError>)
    ensures
        r == as_node(spec_parse_swapw(op@)),
{
    let node = match op.num_parts() {
        0 => return Err(ParsingError::missing_param(op)),
        1 => Node::Instruction(Instruction::SwapW),
        2 => match read_depth(op.part(1)) {
            Some(1) => Node::Instruction(Instruction::SwapW),
            Some(2) => Node::Instruction(Instruction::SwapW2),
            Some(3) => Node::Instruction(Instruction::SwapW3),
            _ => return Err(ParsingError::invalid_param(op, 1)),
        },
        _ => return Err(ParsingError::extra_param(op)),
    };
    Ok(node)
}

// MOVUP
// ================================================================================================

/// The instruction of the `movup` family for a depth, where the depth is legal.
pub open spec fn movup_at(depth: nat) -> Option<Instruction> {
    if depth == 2 {
        Some(Instruction::MovUp2)
    } else if depth == 3 {
        Some(Instruction::MovUp3)
    } else if depth == 4 {
        Some(Instruction::MovUp4)
    } else if depth == 5 {
        Some(Instruction::MovUp5)
    } else if depth == 6 {
        Some(Instruction::MovUp6)
    } else if depth == 7 {
        Some(Instruction::MovUp7)
    } else if depth == 8 {
        Some(Instruction::MovUp8)
    } else if depth == 9 {
        Some(Instruction::MovUp9)
    } else if depth == 10 {
        Some(Instruction::MovUp10)
    } else if depth == 11 {
        Some(Instruction::MovUp11)
    } else if depth == 12 {
        Some(Instruction::MovUp12)
    } else if depth == 13 {
        Some(Instruction::MovUp13)
    } else if depth == 14 {
        Some(Instruction::MovUp14)
    } else if depth == 15 {
        Some(Instruction::MovUp15)
    } else {
        None
    }
}

/// What `parse_movup` returns for a statement.
pub open spec fn spec_parse_movup(op: TokenView) -> Result<Instruction, ParsingError> {
    depth_op(op, Instruction::MovUp2, |depth: nat| movup_at(depth))
}

/// Parses `movup`: moves the item at depth 2 to 15 to the top; depth 2 where none is given.
pub fn parse_movup(op: &Token) -> (r: Result<Node, ParsingError>)
    ensures
        r == as_node(spec_parse_movup(op@)),
{
    let node = match op.num_parts() {
        0 => return Err(ParsingError::missing_param(op)),
        1 => Node::Instruction(Instruction::MovUp2),
        2 => match read_depth(op.part(1)) {
            Some(2) => Node::Instruction(Instruction::MovUp2),
            Some(3) => Node::Instruction(Instruction::MovUp3),
            Some(4) => Node::Instruction(Instruction::MovUp4),
            Some(5) => Node::Instruction(Instruction::MovUp5),
            Some(6) => Node::Instruction(Instruction::MovUp6),
            Some(7) => Node::Instruction(Instruction::MovUp7),
            Some(8) => Node::Instruction(Instruction::MovUp8),
            Some(9) => Node::Instruction(Instruction::MovUp9),
            Some(10) => Node::Instruction(Instruction::MovUp10),
            Some(11) => Node::Instruction(Instruction::MovUp11),
            Some(12) => Node::Instruction(Instruction::MovUp12),
            Some(13) => Node::Instruction(Instruction::MovUp13),
            Some(14) => Node::Instruction(Instruction::MovUp14),
            Some(15) => Node::Instruction(Instruction::MovUp15),
            _ => return Err(ParsingError::invalid_param(op, 1)),
        },
        _ => return Err(ParsingError::extra_param(op)),
    };
    Ok(node)
}

// MOVDN
// ================================================================================================

/// The instruction of the `movdn` family for a depth, where the depth is legal.
pub open spec fn movdn_at(depth: nat) -> Option<Instruction> {
    if depth == 2 {
        Some(Instruction::MovDn2)
    } else if depth == 3 {
        Some(Instruction::MovDn3)
    } else if depth == 4 {
        Some(Instruction::MovDn4)
    } else if depth == 5 {
        Some(Instruction::MovDn5)
    } else if depth == 6 {
        Some(Instruction::MovDn6)
    } else if depth == 7 {
        Some(Instruction::MovDn7)
    } else if depth == 8 {
        Some(Instruction::MovDn8)
    } else if depth == 9 {
        Some(Instruction::MovDn9)
    } else if depth == 10 {
        Some(Instruction::MovDn10)
    } else if depth == 11 {
        Some(Instruction::MovDn11)
    } else if depth == 12 {
        Some(Instruction::MovDn12)
    } else if depth == 13 {
        Some(Instruction::MovDn13)
    } else if depth == 14 {
        Some(Instruction::MovDn14)
    } else if depth == 15 {
        Some(Instruction::MovDn15)
    } else {
        None
    }
}

/// What `parse_movdn` returns for a statement.
pub open spec fn spec_parse_movdn(op: TokenView) -> Result<Instruction, ParsingError> {
    depth_op(op, Instruction::MovDn2, |depth: nat| movdn_at(depth))
}

/// Parses `movdn`: moves the top of the stack down to depth 2 to 15; depth 2 where none is given.
pub fn parse_movdn(op: &Token) -> (r: Result<Node, ParsingError>)
    ensures
        r == as_node(spec_parse_movdn(op@)),
{
    let node = match op.num_parts() {
        0 => return Err(ParsingError::missing_param(op)),
        1 => Node::Instruction(Instruction::MovDn2),
        2 => match read_depth(op.part(1)) {
            Some(2) => Node::Instruction(Instruction::MovDn2),
            Some(3) => Node::Instruction(Instruction::MovDn3),
            Some(4) => Node::Instruction(Instruction::MovDn4),
            Some(5) => Node::Instruction(Instruction::MovDn5),
            Some(6) => Node::Instruction(Instruction::MovDn6),
            Some(7) => Node::Instruction(Instruction::MovDn7),
            Some(8) => Node::Instruction(Instruction::MovDn8),
            Some(9) => Node::Instruction(Instruction::MovDn9),
            Some(10) => Node::Instruction(Instruction::MovDn10),
            Some(11) => Node::Instruction(Instruction::MovDn11),
            Some(12) => Node::Instruction(Instruction::MovDn12),
            Some(13) => Node::Instruction(Instruction::MovDn13),
            Some(14) => Node::Instruction(Instruction::MovDn14),
            Some(15) => Node::Instruction(Instruction::MovDn15),
            _ => return Err(ParsingError::invalid_param(op, 1)),
        },
        _ => return Err(ParsingError::extra_param(op)),
    };
    Ok(node)
}

// MOVUPW
// ================================================================================================

/// The instruction of the `movupw` family for a depth, where the depth is legal.
pub open spec fn movupw_at(depth: nat) -> Option<Instruction> {
    if depth == 2 {
        Some(Instruction::MovUpW2)
    } else if depth == 3 {
        Some(Instruction::MovUpW3)
    } else {
        None
    }
}

/// What `parse_movupw` returns for a statement.
pub open spec fn spec_parse_movupw(op: TokenView) -> Result<Instruction, ParsingError> {
    depth_op(op, Instruction::MovUpW2, |depth: nat| movupw_at(depth))
}

/// Parses `movupw`: moves the word at depth 2 or 3 to the top; depth 2 where none is given.
pub fn parse_movupw(op: &Token) -> (r: Result<Node, ParsingError>)
    ensures
        r == as_node(spec_parse_movupw(op@)),
{
    let node = match op.num_parts() {
        0 => return Err(ParsingError::missing_param(op)),
        1 => Node::Instruction(Instruction::MovUpW2),
        2 => match read_depth(op.part(1)) {
            Some(2) => Node::Instruction(Instruction::MovUpW2),
            Some(3) => Node::Instruction(Instruction::MovUpW3),
            _ => return Err(ParsingError::invalid_param(op, 1)),
        },
        _ => return Err(ParsingError::extra_param(op)),
    };
    Ok(node)
}

// MOVDNW
// ================================================================================================

/// The instruction of the `movdnw` family for a depth, where the depth is legal.
pub open spec fn movdnw_at(depth: nat) -> Option<Instruction> {
    if depth == 2 {
        Some(Instruction::MovDnW2)
    } else if depth == 3 {
        Some(Instruction::MovDnW3)
    } else {
        None
    }
}

/// What `parse_movdnw` returns for a statement.
pub open spec fn spec_parse_movdnw(op: TokenView) -> Result<Instruction, ParsingError> {
    depth_op(op, Instruction::MovDnW2, |depth: nat| movdnw_at(depth))
}

/// Parses `movdnw`: moves the top word down to depth 2 or 3; depth 2 where none is given.
pub fn parse_movdnw(op: &Token) -> (r: Result<Node, ParsingError>)
    ensures
        r == as_node(spec_parse_movdnw(op@)),
{
    let node = match op.num_parts() {
        0 => return Err(ParsingError::missing_param(op)),
        1 => Node::Instruction(Instruction::MovDnW2),
        2 => match read_depth(op.part(1)) {
            Some(2) => Node::Instruction(Instruction::MovDnW2),
            Some(3) => Node::Instruction(Instruction::MovDnW3),
            _ => return Err(ParsingError::invalid_param(op, 1)),
        },
        _ => return Err(ParsingError::extra_param(op)),
    };
    Ok(node)
}

} // verus!
