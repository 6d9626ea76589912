use crate::errors::ParsingError;
use crate::nodes::{AdviceInjectorNode, Instruction, Node};
use crate::stack_ops::as_node;
use crate::text::{is_word, number_in_range, parse_number, text};
use crate::tokens::{Token, TokenView};
use vstd::prelude::*;

verus! {

/// The injector that a sub-mnemonic names, among those that take no parameter.
pub open spec fn plain_injector(name: Seq<u8>) -> Option<AdviceInjectorNode> {
    if name == text("push_u64div") {
        Some(AdviceInjectorNode::PushU64div)
    } else if name == text("push_ext2intt") {
        Some(AdviceInjectorNode::PushExt2intt)
    } else if name == text("push_smtget") {
        Some(AdviceInjectorNode::PushSmtGet)
    } else if name == text("push_mapval") {
        Some(AdviceInjectorNode::PushMapVal)
    } else if name == text("push_mtnode") {
        Some(AdviceInjectorNode::PushMtNode)
    } else if name == text("insert_mem") {
        Some(AdviceInjectorNode::InsertMem)
    } else {
        None
    }
}

/// What `parse_adv_inject` returns for a statement. The second part names the
/// injector. `insert_hdword` takes an optional domain, a byte written in
/// decimal, which is 0 where it is left out; no other injector takes a
/// parameter.
pub open spec fn spec_parse_adv_inject(op: TokenView) -> Result<Instruction, ParsingError> {
    if op.parts.len() < 2 {
        Err(ParsingError::MissingParam { step: op.pos })
    } else {
        match plain_injector(op.parts[1]) {
            Some(injector) => if op.parts.len() == 2 {
                Ok(Instruction::AdvInject(injector))
            } else {
                Err(ParsingError::ExtraParam { step: op.pos })
            },
            None => if op.parts[1] != text("insert_hdword") {
                Err(ParsingError::InvalidOp { step: op.pos })
            } else if op.parts.len() == 2 {
                Ok(Instruction::AdvInject(AdviceInjectorNode::InsertHdword { domain: 0 }))
            } else if op.parts.len() == 3 {
                match number_in_range(op.parts[2], 10, 0, 255) {
                    Some(domain) => Ok(
                        Instruction::AdvInject(
                            AdviceInjectorNode::InsertHdword { domain: domain as u8 },
                        ),
                    ),
                    None => Err(ParsingError::InvalidParam { step: op.pos, param: 2 }),
                }
            } else {
                Err(ParsingError::ExtraParam { step: op.pos })
            },
        }
    }
}

/// The parameter `param` of `op` as a decimal number in `lo..=hi`.
pub fn parse_checked_param(op: &Token, param: usize, lo: u64, hi: u64) -> (r: Result<
    u64,
    ParsingError,
>)
    requires
        param < op@.parts.len(),
    ensures
        r == match number_in_range(op@.parts[param as int], 10, lo as nat, hi as nat) {
            Some(value) => Ok::<u64, ParsingError>(value as u64),
            None => Err(ParsingError::InvalidParam { step: op@.pos, param }),
        },
{
    match parse_number(op.part(param), 10, lo, hi) {
        Some(value) => Ok(value),
        None => Err(ParsingError::invalid_param(op, param)),
    }
}

fn plain(op: &Token, injector: AdviceInjectorNode) -> (r: Result<Instruction, ParsingError>)
    ensures
        r == if op@.parts.len() == 2 {
            Ok::<Instruction, ParsingError>(Instruction::AdvInject(injector))
        } else {
            Err(ParsingError::ExtraParam { step: op@.pos })
        },
{
    if op.num_parts() == 2 {
        Ok(Instruction::AdvInject(injector))
    } else {
        Err(ParsingError::extra_param(op))
    }
}

/// Parses an advice injection, `adv.<injector>`.
pub fn parse_adv_inject(op: &Token) -> (r: Result<Node, ParsingError>)
    ensures
        r == as_node(spec_parse_adv_inject(op@)),
{
    if op.num_parts() < 2 {
        return Err(ParsingError::missing_param(op));
    }
    let kind = op.part(1);
    let injector = if is_word(kind, "push_u64div") {
        plain(op, AdviceInjectorNode::PushU64div)?
    } else if is_word(kind, "push_ext2intt") {
        plain(op, AdviceInjectorNode::PushExt2intt)?
    } else if is_word(kind, "push_smtget") {
        plain(op, AdviceInjectorNode::PushSmtGet)?
    } else if is_word(kind, "push_mapval") {
        plain(op, AdviceInjectorNode::PushMapVal)?
    } else if is_word(kind, "push_mtnode") {
        plain(op, AdviceInjectorNode::PushMtNode)?
    } else if is_word(kind, "insert_mem") {
        plain(op, AdviceInjectorNode::InsertMem)?
    } else if is_word(kind, "insert_hdword") {
        match op.num_parts() {
            2 => Instruction::AdvInject(AdviceInjectorNode::InsertHdword { domain: 0 }),
            3 => {
                let domain = parse_checked_param(op, 2, 0, 255)?;
                Instruction::AdvInject(AdviceInjectorNode::InsertHdword { domain: domain as u8 })
            },
            _ => return Err(ParsingError::extra_param(op)),
        }
    } else {
        return Err(ParsingError::invalid_op(op));
    };
    Ok(Node::Instruction(injector))
}

} // verus!
