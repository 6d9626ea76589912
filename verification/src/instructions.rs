use crate::adv_ops::{parse_adv_inject, spec_parse_adv_inject};
use crate::errors::ParsingError;
use crate::io_ops::{
    instruction_agrees, parse_loc_load, parse_loc_store, parse_push, spec_parse_loc_load,
    spec_parse_loc_store, spec_parse_push,
};
use crate::nodes::{Instruction, InstructionView, Node};
use crate::plain_ops::{parse_plain, spec_parse_plain};
use crate::proc_ops::{parse_invocation, spec_parse_invocation, ContextView, ParserContext};
use crate::stack_ops::{
    parse_dup, parse_dupw, parse_movdn, parse_movdnw, parse_movup, parse_movupw, parse_swap,
    parse_swapw, spec_parse_dup, spec_parse_dupw, spec_parse_movdn, spec_parse_movdnw,
    spec_parse_movup, spec_parse_movupw, spec_parse_swap, spec_parse_swapw,
};
use crate::tokens::{mnemonic_is, Token, TokenView};
use vstd::prelude::*;

verus! {

/// The result of a parser of instructions that hold plain data only.
pub open spec fn fixed(r: Result<Instruction, ParsingError>) -> Result<
    InstructionView,
    ParsingError,
> {
    match r {
        Ok(instruction) => Ok(InstructionView::Fixed(instruction)),
        Err(e) => Err(e),
    }
}

/// The instruction that a statement writes, where the statements before it
/// have declared `ctx`. The mnemonic picks the family, and the family's rule
/// decides on the parameters. A mnemonic of no family with parameters is that
/// of an operation without parameters, or no operation at all.
#[verifier::opaque]
pub open spec fn spec_parse_instruction(op: TokenView, ctx: ContextView) -> Result<
    InstructionView,
    ParsingError,
> {
    if mnemonic_is(op, "push") {
        spec_parse_push(op)
    } else if mnemonic_is(op, "dup") {
        fixed(spec_parse_dup(op))
    } else if mnemonic_is(op, "dupw") {
        fixed(spec_parse_dupw(op))
    } else if mnemonic_is(op, "swap") {
        fixed(spec_parse_swap(op))
    } else if mnemonic_is(op, "swapw") {
        fixed(spec_parse_swapw(op))
    } else if mnemonic_is(op, "movup") {
        fixed(spec_parse_movup(op))
    } else if mnemonic_is(op, "movdn") {
        fixed(spec_parse_movdn(op))
    } else if mnemonic_is(op, "movupw") {
        fixed(spec_parse_movupw(op))
    } else if mnemonic_is(op, "movdnw") {
        fixed(spec_parse_movdnw(op))
    } else if mnemonic_is(op, "adv") {
        fixed(spec_parse_adv_inject(op))
    } else if mnemonic_is(op, "loc_load") {
        fixed(spec_parse_loc_load(op))
    } else if mnemonic_is(op, "loc_store") {
        fixed(spec_parse_loc_store(op))
    } else if mnemonic_is(op, "exec") {
        fixed(spec_parse_invocation(op, ctx, false))
    } else if mnemonic_is(op, "call") {
        fixed(spec_parse_invocation(op, ctx, true))
    } else {
        fixed(spec_parse_plain(op))
    }
}

/// No parser of plain instructions gives the constant list.
proof fn lemma_fixed_agrees(node: Result<Node, ParsingError>, r: Result<Instruction, ParsingError>)
    requires
        node == crate::stack_ops::as_node(r),
        r matches Ok(instruction) ==> instruction !is PushConstants,
    ensures
        instruction_agrees(node, fixed(r)),
{
}

/// Parses a statement that is an instruction.
pub fn parse_instruction(op: &Token, ctx: &ParserContext) -> (r: Result<Node, ParsingError>)
    ensures
        instruction_agrees(r, spec_parse_instruction(op@, ctx@)),
{
    reveal(spec_parse_instruction);
    if op.named("push") {
        parse_push(op)
    } else if op.named("dup") {
        let r = parse_dup(op);
        proof {
            lemma_fixed_agrees(r, spec_parse_dup(op@));
        }
        r
    } else if op.named("dupw") {
        let r = parse_dupw(op);
        proof {
            lemma_fixed_agrees(r, spec_parse_dupw(op@));
        }
        r
    } else if op.named("swap") {
        let r = parse_swap(op);
        proof {
            lemma_fixed_agrees(r, spec_parse_swap(op@));
        }
        r
    } else if op.named("swapw") {
        let r = parse_swapw(op);
        proof {
            lemma_fixed_agrees(r, spec_parse_swapw(op@));
        }
        r
    } else if op.named("movup") {
        let r = parse_movup(op);
        proof {
            lemma_fixed_agrees(r, spec_parse_movup(op@));
        }
        r
    } else if op.named("movdn") {
        let r = parse_movdn(op);
        proof {
            lemma_fixed_agrees(r, spec_parse_movdn(op@));
        }
        r
    } else if op.named("movupw") {
        let r = parse_movupw(op);
        proof {
            lemma_fixed_agrees(r, spec_parse_movupw(op@));
        }
        r
    } else if op.named("movdnw") {
        let r = parse_movdnw(op);
        proof {
            lemma_fixed_agrees(r, spec_parse_movdnw(op@));
        }
        r
    } else if op.named("adv") {
        let r = parse_adv_inject(op);
        proof {
            lemma_fixed_agrees(r, spec_parse_adv_inject(op@));
        }
        r
    } else if op.named("loc_load") {
        let r = parse_loc_load(op);
        proof {
            lemma_fixed_agrees(r, spec_parse_loc_load(op@));
        }
        r
    } else if op.named("loc_store") {
        let r = parse_loc_store(op);
        proof {
            lemma_fixed_agrees(r, spec_parse_loc_store(op@));
        }
        r
    } else if op.named("exec") {
        let r = parse_invocation(op, ctx, false);
        proof {
            lemma_fixed_agrees(r, spec_parse_invocation(op@, ctx@, false));
        }
        r
    } else if op.named("call") {
        let r = parse_invocation(op, ctx, true);
        proof {
            lemma_fixed_agrees(r, spec_parse_invocation(op@, ctx@, true));
        }
        r
    } else {
        let r = parse_plain(op);
        proof {
            lemma_fixed_agrees(r, spec_parse_plain(op@));
        }
        r
    }
}

} // verus!
