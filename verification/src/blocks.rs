use crate::errors::ParsingError;
use crate::instructions::{parse_instruction, spec_parse_instruction};
use crate::nodes::{nodes_view, Node, NodeView};
use crate::proc_ops::{ContextView, ParserContext};
use crate::text::{is_word, number_in_range, parse_number, text};
use crate::tokens::{mnemonic_is, tokens_view, Token, TokenView};
use vstd::prelude::*;

verus! {

// THE GRAMMAR OF A BODY
// ================================================================================================

/// Whether a token closes the body it follows: `end` or `else`.
pub open spec fn closes_block(op: TokenView) -> bool {
    mnemonic_is(op, "end") || mnemonic_is(op, "else")
}

/// The rule for the header of `if` and `while`: the mnemonic and `true`.
pub open spec fn spec_condition(op: TokenView) -> Result<(), ParsingError> {
    if op.parts.len() < 2 {
        Err(ParsingError::MissingParam { step: op.pos })
    } else if op.parts.len() > 2 {
        Err(ParsingError::ExtraParam { step: op.pos })
    } else if op.parts[1] != text("true") {
        Err(ParsingError::InvalidParam { step: op.pos, param: 1 })
    } else {
        Ok(())
    }
}

/// The rule for the header of `repeat`: the mnemonic and a count, a decimal
/// number from 1 to 2^32 - 1.
pub open spec fn spec_repeat_count(op: TokenView) -> Result<u32, ParsingError> {
    if op.parts.len() < 2 {
        Err(ParsingError::MissingParam { step: op.pos })
    } else if op.parts.len() > 2 {
        Err(ParsingError::ExtraParam { step: op.pos })
    } else {
        match number_in_range(op.parts[1], 10, 1, u32::MAX as nat) {
            Some(count) => Ok(count as u32),
            None => Err(ParsingError::InvalidParam { step: op.pos, param: 1 }),
        }
    }
}

/// The rule for `end`, `else` and `begin`: the mnemonic alone.
pub open spec fn spec_lone(op: TokenView) -> Result<(), ParsingError> {
    if op.parts.len() > 1 {
        Err(ParsingError::ExtraParam { step: op.pos })
    } else {
        Ok(())
    }
}

/// What is owed where the body of the block opened at step `opener` stops: an
/// `end`. Where the source stops instead the block is unterminated, and an
/// `else` there closes nothing.
pub open spec fn spec_block_end(tokens: Seq<TokenView>, at: int, opener: usize) -> Result<
    (),
    ParsingError,
> {
    if at < 0 || at >= tokens.len() {
        Err(ParsingError::UnterminatedBlock { step: opener })
    } else if mnemonic_is(tokens[at], "end") {
        spec_lone(tokens[at])
    } else {
        Err(ParsingError::UnexpectedBlockClose { step: tokens[at].pos })
    }
}

/// The nodes of the body that goes on at `pos`, after the nodes `done` that
/// it holds already, and the position at which it stops. A body stops before
/// the first `end` or `else` that no block inside it takes, or where the
/// source ends.
pub open spec fn spec_parse_body(
    tokens: Seq<TokenView>,
    pos: int,
    ctx: ContextView,
    done: Seq<NodeView>,
) -> Result<(Seq<NodeView>, int), ParsingError>
    decreases tokens.len() - pos, 1int,
{
    if pos < 0 || pos >= tokens.len() || closes_block(tokens[pos]) {
        Ok((done, pos))
    } else {
        match spec_parse_node(tokens, pos, ctx) {
            Err(e) => Err(e),
            Ok((node, next)) => if pos < next <= tokens.len() {
                spec_parse_body(tokens, next, ctx, done.push(node))
            } else {
                // A node takes at least its own token.
                Ok((done, pos))
            },
        }
    }
}

/// The node that starts with the token at `pos`, and the position behind it.
/// `if.true`, `while.true` and `repeat.<count>` open a block, which runs to
/// its `end`; the body of an `if` may be followed by `else` and a second
/// body. Any other token is an instruction.
pub open spec fn spec_parse_node(tokens: Seq<TokenView>, pos: int, ctx: ContextView) -> Result<
    (NodeView, int),
    ParsingError,
>
    decreases tokens.len() - pos, 0int,
{
    if pos < 0 || pos >= tokens.len() {
        // No statement stands there.
        Err(ParsingError::MissingBody)
    } else {
        let op = tokens[pos];
        if mnemonic_is(op, "if") {
            match spec_condition(op) {
                Err(e) => Err(e),
                Ok(_) => match spec_parse_body(tokens, pos + 1, ctx, Seq::empty()) {
                    Err(e) => Err(e),
                    Ok((then_body, at)) => if pos < at < tokens.len() && mnemonic_is(
                        tokens[at],
                        "else",
                    ) {
                        match spec_lone(tokens[at]) {
                            Err(e) => Err(e),
                            Ok(_) => match spec_parse_body(tokens, at + 1, ctx, Seq::empty()) {
                                Err(e) => Err(e),
                                Ok((else_body, end)) => match spec_block_end(tokens, end, op.pos) {
                                    Err(e) => Err(e),
                                    Ok(_) => Ok((NodeView::IfElse(then_body, else_body), end + 1)),
                                },
                            },
                        }
                    } else {
                        match spec_block_end(tokens, at, op.pos) {
                            Err(e) => Err(e),
                            Ok(_) => Ok((NodeView::IfElse(then_body, Seq::empty()), at + 1)),
                        }
                    },
                },
            }
        } else if mnemonic_is(op, "while") {
            match spec_condition(op) {
                Err(e) => Err(e),
                Ok(_) => match spec_parse_body(tokens, pos + 1, ctx, Seq::empty()) {
                    Err(e) => Err(e),
                    Ok((body, at)) => match spec_block_end(tokens, at, op.pos) {
                        Err(e) => Err(e),
                        Ok(_) => Ok((NodeView::While(body), at + 1)),
                    },
                },
            }
        } else if mnemonic_is(op, "repeat") {
            match spec_repeat_count(op) {
                Err(e) => Err(e),
                Ok(count) => match spec_parse_body(tokens, pos + 1, ctx, Seq::empty()) {
                    Err(e) => Err(e),
                    Ok((body, at)) => match spec_block_end(tokens, at, op.pos) {
                        Err(e) => Err(e),
                        Ok(_) => Ok((NodeView::Repeat(count, body), at + 1)),
                    },
                },
            }
        } else {
            match spec_parse_instruction(op, ctx) {
                Err(e) => Err(e),
                Ok(instruction) => Ok((NodeView::Instruction(instruction), pos + 1)),
            }
        }
    }
}

/// A body stops at or behind where it starts, and inside the tokens.
pub proof fn lemma_body_advances(
    tokens: Seq<TokenView>,
    pos: int,
    ctx: ContextView,
    done: Seq<NodeView>,
)
    requires
        0 <= pos <= tokens.len(),
    ensures
        spec_parse_body(tokens, pos, ctx, done) matches Ok((_, next)) ==> pos <= next
            <= tokens.len(),
    decreases tokens.len() - pos, 1int,
{
    if pos < tokens.len() && !closes_block(tokens[pos]) {
        lemma_node_advances(tokens, pos, ctx);
        match spec_parse_node(tokens, pos, ctx) {
            Ok((node, next)) => {
                lemma_body_advances(tokens, next, ctx, done.push(node));
            },
            Err(_) => {},
        }
    }
}

/// A node takes at least its own token and stops inside the tokens. So the
/// checks of positions in the grammar always hold.
pub proof fn lemma_node_advances(tokens: Seq<TokenView>, pos: int, ctx: ContextView)
    requires
        0 <= pos < tokens.len(),
    ensures
        spec_parse_node(tokens, pos, ctx) matches Ok((_, next)) ==> pos < next <= tokens.len(),
    decreases tokens.len() - pos, 0int,
{
    let op = tokens[pos];
    if mnemonic_is(op, "if") || mnemonic_is(op, "while") || mnemonic_is(op, "repeat") {
        lemma_body_advances(tokens, pos + 1, ctx, Seq::empty());
        match spec_parse_body(tokens, pos + 1, ctx, Seq::empty()) {
            Ok((_, at)) => {
                if at < tokens.len() {
                    lemma_body_advances(tokens, at + 1, ctx, Seq::empty());
                }
            },
            Err(_) => {},
        }
    }
}

/// Whether a body parser's result is what the specification gives.
pub open spec fn body_agrees(
    r: Result<(Vec<Node>, usize), ParsingError>,
    spec: Result<(Seq<NodeView>, int), ParsingError>,
) -> bool {
    match (r, spec) {
        (Ok((nodes, next)), Ok((spec_nodes, spec_next))) => nodes_view(nodes@) == spec_nodes
            && next == spec_next,
        (Err(e), Err(spec_e)) => e == spec_e,
        _ => false,
    }
}

/// Whether a node parser's result is what the specification gives.
pub open spec fn node_agrees(
    r: Result<(Node, usize), ParsingError>,
    spec: Result<(NodeView, int), ParsingError>,
) -> bool {
    match (r, spec) {
        (Ok((node, next)), Ok((spec_node, spec_next))) => node@ == spec_node && next == spec_next,
        (Err(e), Err(spec_e)) => e == spec_e,
        _ => false,
    }
}

// PARSERS
// ================================================================================================

fn parse_condition(op: &Token) -> (r: Result<(), ParsingError>)
    ensures
        r == spec_condition(op@),
{
    if op.num_parts() < 2 {
        Err(ParsingError::missing_param(op))
    } else if op.num_parts() > 2 {
        Err(ParsingError::extra_param(op))
    } else if !is_word(op.part(1), "true") {
        Err(ParsingError::invalid_param(op, 1))
    } else {
        Ok(())
    }
}

fn parse_repeat_count(op: &Token) -> (r: Result<u32, ParsingError>)
    ensures
        r == spec_repeat_count(op@),
{
    if op.num_parts() < 2 {
        Err(ParsingError::missing_param(op))
    } else if op.num_parts() > 2 {
        Err(ParsingError::extra_param(op))
    } else {
        match parse_number(op.part(1), 10, 1, 0xFFFF_FFFF) {
            Some(count) => Ok(count as u32),
            None => Err(ParsingError::invalid_param(op, 1)),
        }
    }
}

/// Checks that a token that takes no parameter has none.
pub fn parse_lone(op: &Token) -> (r: Result<(), ParsingError>)
    ensures
        r == spec_lone(op@),
{
    if op.num_parts() > 1 {
        Err(ParsingError::extra_param(op))
    } else {
        Ok(())
    }
}

/// Checks that the block opened at step `opener` ends at `at`.
pub fn parse_block_end(tokens: &Vec<Token>, at: usize, opener: usize) -> (r: Result<
    (),
    ParsingError,
>)
    ensures
        r == spec_block_end(tokens_view(tokens@), at as int, opener),
        r is Ok ==> at < tokens@.len(),
{
    if at >= tokens.len() {
        Err(ParsingError::UnterminatedBlock { step: opener })
    } else if tokens[at].named("end") {
        parse_lone(&tokens[at])
    } else {
        Err(ParsingError::UnexpectedBlockClose { step: tokens[at].pos() })
    }
}

/// Parses the body that starts at `pos`, up to where it stops.
pub fn parse_body(tokens: &Vec<Token>, pos: usize, ctx: &ParserContext) -> (r: Result<
    (Vec<Node>, usize),
    ParsingError,
>)
    requires
        pos <= tokens@.len(),
    ensures
        body_agrees(r, spec_parse_body(tokens_view(tokens@), pos as int, ctx@, Seq::empty())),
        r matches Ok((_, next)) ==> pos <= next <= tokens@.len(),
    decreases tokens@.len() - pos, 2int,
{
    let mut nodes: Vec<Node> = Vec::new();
    let mut at: usize = pos;
    assert(nodes_view(nodes@) =~= Seq::<NodeView>::empty());
    while at < tokens.len() && !(tokens[at].named("end") || tokens[at].named("else"))
        invariant
            pos <= at <= tokens@.len(),
            spec_parse_body(tokens_view(tokens@), pos as int, ctx@, Seq::empty())
                == spec_parse_body(tokens_view(tokens@), at as int, ctx@, nodes_view(nodes@)),
        decreases tokens@.len() - at,
    {
        match parse_node(tokens, at, ctx) {
            Err(e) => {
                return Err(e);
            },
            Ok((node, next)) => {
                let ghost before = nodes_view(nodes@);
                nodes.push(node);
                assert(nodes_view(nodes@) =~= before.push(node@));
                at = next;
            },
        }
    }
    Ok((nodes, at))
}

/// Parses the node that starts with the token at `pos`.
pub fn parse_node(tokens: &Vec<Token>, pos: usize, ctx: &ParserContext) -> (r: Result<
    (Node, usize),
    ParsingError,
>)
    requires
        pos < tokens@.len(),
    ensures
        node_agrees(r, spec_parse_node(tokens_view(tokens@), pos as int, ctx@)),
        r matches Ok((_, next)) ==> pos < next <= tokens@.len(),
    decreases tokens@.len() - pos, 1int,
{
    // Reading the length tells that every position up to it fits a machine word.
    let _total: usize = tokens.len();
    let op = &tokens[pos];
    if op.named("if") {
        parse_if(tokens, pos, ctx)
    } else if op.named("while") {
        parse_while(tokens, pos, ctx)
    } else if op.named("repeat") {
        parse_repeat(tokens, pos, ctx)
    } else {
        match parse_instruction(op, ctx) {
            Ok(node) => Ok((node, pos + 1)),
            Err(e) => Err(e),
        }
    }
}

fn parse_if(tokens: &Vec<Token>, pos: usize, ctx: &ParserContext) -> (r: Result<
    (Node, usize),
    ParsingError,
>)
    requires
        pos < tokens@.len(),
        mnemonic_is(tokens@[pos as int]@, "if"),
    ensures
        node_agrees(r, spec_parse_node(tokens_view(tokens@), pos as int, ctx@)),
        r matches Ok((_, next)) ==> pos < next <= tokens@.len(),
    decreases tokens@.len() - pos, 0int,
{
    // Reading the length tells that every position up to it fits a machine word.
    let _total: usize = tokens.len();
    let op = &tokens[pos];
    match parse_condition(op) {
        Err(e) => Err(e),
        Ok(_) => match parse_body(tokens, pos + 1, ctx) {
            Err(e) => Err(e),
            Ok((then_body, at)) => if at < tokens.len() && tokens[at].named("else") {
                match parse_lone(&tokens[at]) {
                    Err(e) => Err(e),
                    Ok(_) => match parse_body(tokens, at + 1, ctx) {
                        Err(e) => Err(e),
                        Ok((else_body, end)) => match parse_block_end(tokens, end, op.pos()) {
                            Err(e) => Err(e),
                            Ok(_) => Ok((Node::IfElse(then_body, else_body), end + 1)),
                        },
                    },
                }
            } else {
                match parse_block_end(tokens, at, op.pos()) {
                    Err(e) => Err(e),
                    Ok(_) => {
                        let else_body: Vec<Node> = Vec::new();
                        assert(nodes_view(else_body@) =~= Seq::<NodeView>::empty());
                        Ok((Node::IfElse(then_body, else_body), at + 1))
                    },
                }
            },
        },
    }
}

fn parse_while(tokens: &Vec<Token>, pos: usize, ctx: &ParserContext) -> (r: Result<
    (Node, usize),
    ParsingError,
>)
    requires
        pos < tokens@.len(),
        !mnemonic_is(tokens@[pos as int]@, "if"),
        mnemonic_is(tokens@[pos as int]@, "while"),
    ensures
        node_agrees(r, spec_parse_node(tokens_view(tokens@), pos as int, ctx@)),
        r matches Ok((_, next)) ==> pos < next <= tokens@.len(),
    decreases tokens@.len() - pos, 0int,
{
    // Reading the length tells that every position up to it fits a machine word.
    let _total: usize = tokens.len();
    let op = &tokens[pos];
    match parse_condition(op) {
        Err(e) => Err(e),
        Ok(_) => match parse_body(tokens, pos + 1, ctx) {
            Err(e) => Err(e),
            Ok((body, at)) => match parse_block_end(tokens, at, op.pos()) {
                Err(e) => Err(e),
                Ok(_) => Ok((Node::While(body), at + 1)),
            },
        },
    }
}

fn parse_repeat(tokens: &Vec<Token>, pos: usize, ctx: &ParserContext) -> (r: Result<
    (Node, usize),
    ParsingError,
>)
    requires
        pos < tokens@.len(),
        !mnemonic_is(tokens@[pos as int]@, "if"),
        !mnemonic_is(tokens@[pos as int]@, "while"),
        mnemonic_is(tokens@[pos as int]@, "repeat"),
    ensures
        node_agrees(r, spec_parse_node(tokens_view(tokens@), pos as int, ctx@)),
        r matches Ok((_, next)) ==> pos < next <= tokens@.len(),
    decreases tokens@.len() - pos, 0int,
{
    // Reading the length tells that every position up to it fits a machine word.
    let _total: usize = tokens.len();
    let op = &tokens[pos];
    match parse_repeat_count(op) {
        Err(e) => Err(e),
        Ok(count) => match parse_body(tokens, pos + 1, ctx) {
            Err(e) => Err(e),
            Ok((body, at)) => match parse_block_end(tokens, at, op.pos()) {
                Err(e) => Err(e),
                Ok(_) => Ok((Node::Repeat(count, body), at + 1)),
            },
        },
    }
}

} // verus!
