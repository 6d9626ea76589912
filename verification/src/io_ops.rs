use crate::errors::ParsingError;
use crate::felt::{felt, group_felt, Felt, MODULUS};
use crate::nodes::{Instruction, InstructionView, Node, NodeView};
use crate::text::{number_in_range, parse_number};
use crate::tokens::{Token, TokenView};
use vstd::prelude::*;
use vstd::slice::slice_subrange;

verus! {

broadcast use group_felt;

/// The most constants that one `push` takes.
pub const MAX_CONSTANTS: usize = 16;

/// The field element that `s` writes: a decimal number, or `0x` and a
/// hexadecimal number, below the modulus.
pub open spec fn element_value(s: Seq<u8>) -> Option<u64> {
    let number = if s.len() >= 2 && s[0] == 48 && s[1] == 120 {
        number_in_range(s.subrange(2, s.len() as int), 16, 0, (MODULUS - 1) as nat)
    } else {
        number_in_range(s, 10, 0, (MODULUS - 1) as nat)
    };
    match number {
        Some(value) => Some(value as u64),
        None => None,
    }
}

/// Reads `s` as a field element.
pub fn read_element(s: &[u8]) -> (r: Option<Felt>)
    ensures
        r == match element_value(s@) {
            Some(value) => Some(felt(value)),
            None => None,
        },
{
    let number = if s.len() >= 2 && s[0] == 48 && s[1] == 120 {
        parse_number(slice_subrange(s, 2, s.len()), 16, 0, MODULUS - 1)
    } else {
        parse_number(s, 10, 0, MODULUS - 1)
    };
    match number {
        Some(value) => Some(Felt::from_canonical(value)),
        None => None,
    }
}

/// The parameter `param` of `op` as a field element.
pub fn parse_element_param(op: &Token, param: usize) -> (r: Result<Felt, ParsingError>)
    requires
        param < op@.parts.len(),
    ensures
        r == match element_value(op@.parts[param as int]) {
            Some(value) => Ok::<Felt, ParsingError>(felt(value)),
            None => Err(ParsingError::InvalidParam { step: op@.pos, param }),
        },
{
    match read_element(op.part(param)) {
        Some(element) => Ok(element),
        None => Err(ParsingError::invalid_param(op, param)),
    }
}

// PUSH
// ================================================================================================

/// The constants that the parts of `op` from index `i` on write, after the
/// constants `done` of the parts before; or the first part that writes none.
pub open spec fn constants_from(op: TokenView, i: int, done: Seq<Felt>) -> Result<
    Seq<Felt>,
    ParsingError,
>
    decreases op.parts.len() - i,
{
    if i >= op.parts.len() {
        Ok(done)
    } else {
        match element_value(op.parts[i]) {
            Some(value) => constants_from(op, i + 1, done.push(felt(value))),
            None => Err(ParsingError::InvalidParam { step: op.pos, param: i as usize }),
        }
    }
}

/// What `parse_push` returns for a statement: the list of the 1 to 16
/// constants that the parameters write, in their order.
pub open spec fn spec_parse_push(op: TokenView) -> Result<InstructionView, ParsingError> {
    if op.parts.len() < 2 {
        Err(ParsingError::MissingParam { step: op.pos })
    } else if op.parts.len() > MAX_CONSTANTS + 1 {
        Err(ParsingError::ExtraParam { step: op.pos })
    } else {
        match constants_from(op, 1, Seq::empty()) {
            Ok(constants) => Ok(InstructionView::Constants(constants)),
            Err(e) => Err(e),
        }
    }
}

/// Whether an instruction parser's result is what the specification gives.
pub open spec fn instruction_agrees(
    r: Result<Node, ParsingError>,
    spec: Result<InstructionView, ParsingError>,
) -> bool {
    match (r, spec) {
        (Ok(node), Ok(instruction)) => node@ == NodeView::Instruction(instruction),
        (Err(e), Err(spec_e)) => e == spec_e,
        _ => false,
    }
}

/// Parses `push` with 1 to 16 constants.
pub fn parse_push(op: &Token) -> (r: Result<Node, ParsingError>)
    ensures
        instruction_agrees(r, spec_parse_push(op@)),
{
    if op.num_parts() < 2 {
        return Err(ParsingError::missing_param(op));
    }
    if op.num_parts() > MAX_CONSTANTS + 1 {
        return Err(ParsingError::extra_param(op));
    }
    let mut constants: Vec<Felt> = Vec::new();
    let mut i: usize = 1;
    while i < op.num_parts()
        invariant
            1 <= i <= op@.parts.len(),
            2 <= op@.parts.len() <= MAX_CONSTANTS + 1,
            constants_from(op@, 1, Seq::empty()) == constants_from(op@, i as int, constants@),
        decreases op@.parts.len() - i,
    {
        match parse_element_param(op, i) {
            Ok(element) => {
                constants.push(element);
            },
            Err(e) => {
                return Err(e);
            },
        }
        i += 1;
    }
    Ok(Node::Instruction(Instruction::PushConstants(constants)))
}

// LOCAL MEMORY
// ================================================================================================

/// The rule for `loc_load` and `loc_store`: exactly one parameter, the index
/// of the local slot as a field element.
pub open spec fn local_index(op: TokenView) -> Result<Felt, ParsingError> {
    if op.parts.len() < 2 {
        Err(ParsingError::MissingParam { step: op.pos })
    } else if op.parts.len() > 2 {
        Err(ParsingError::ExtraParam { step: op.pos })
    } else {
        match element_value(op.parts[1]) {
            Some(value) => Ok(felt(value)),
            None => Err(ParsingError::InvalidParam { step: op.pos, param: 1 }),
        }
    }
}

fn parse_local_index(op: &Token) -> (r: Result<Felt, ParsingError>)
    ensures
        r == local_index(op@),
{
    if op.num_parts() < 2 {
        return Err(ParsingError::missing_param(op));
    }
    if op.num_parts() > 2 {
        return Err(ParsingError::extra_param(op));
    }
    parse_element_param(op, 1)
}

/// What `parse_loc_load` returns for a statement.
pub open spec fn spec_parse_loc_load(op: TokenView) -> Result<Instruction, ParsingError> {
    match local_index(op) {
        Ok(index) => Ok(Instruction::LocLoad(index)),
        Err(e) => Err(e),
    }
}

/// What `parse_loc_store` returns for a statement.
pub open spec fn spec_parse_loc_store(op: TokenView) -> Result<Instruction, ParsingError> {
    match local_index(op) {
        Ok(index) => Ok(Instruction::LocStore(index)),
        Err(e) => Err(e),
    }
}

/// Parses `loc_load.<index>`.
pub fn parse_loc_load(op: &Token) -> (r: Result<Node, ParsingError>)
    ensures
        r == crate::stack_ops::as_node(spec_parse_loc_load(op@)),
{
    let index = parse_local_index(op)?;
    Ok(Node::Instruction(Instruction::LocLoad(index)))
}

/// Parses `loc_store.<index>`.
pub fn parse_loc_store(op: &Token) -> (r: Result<Node, ParsingError>)
    ensures
        r == crate::stack_ops::as_node(spec_parse_loc_store(op@)),
{
    let index = parse_local_index(op)?;
    Ok(Node::Instruction(Instruction::LocStore(index)))
}

} // verus!
