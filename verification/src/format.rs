use crate::errors::DecodeError;
use crate::felt::Felt;
use crate::nodes::{AdviceInjectorNode, Instruction, InstructionView, NodeView, ProcView};
use crate::procs::sorted_by_name;
use crate::program::{ModuleView, ProgramView};
use crate::text::precedes;
use crate::wire::{
    decode_digest, decode_felt, decode_flag, decode_string, decode_u16, decode_u32, decode_u64,
    decode_u8, encode_felt, encode_flag, encode_string,
};
use vstd::bytes::*;
use vstd::prelude::*;

verus! {

/// The version of the format, the first byte of every stream.
pub const FORMAT_VERSION: u8 = 1;

/// The byte behind the version in the stream of a program.
pub const PROGRAM_KIND: u8 = 0;

/// The byte behind the version in the stream of a module.
pub const MODULE_KIND: u8 = 1;

/// The tag of an `if` node.
pub const IF_ELSE_TAG: u8 = 253;

/// The tag of a `repeat` node.
pub const REPEAT_TAG: u8 = 254;

/// The tag of a `while` node.
pub const WHILE_TAG: u8 = 255;

// TAGS
// ================================================================================================

/// The tag of an instruction: the number of its variant.
pub open spec fn instruction_tag(instruction: Instruction) -> u8 {
    match instruction {
        Instruction::Assert => 0,
        Instruction::AssertEq => 1,
        Instruction::Assertz => 2,
        Instruction::Add => 3,
        Instruction::Sub => 4,
        Instruction::Mul => 5,
        Instruction::Div => 6,
        Instruction::Neg => 7,
        Instruction::Inv => 8,
        Instruction::Not => 9,
        Instruction::And => 10,
        Instruction::Or => 11,
        Instruction::Xor => 12,
        Instruction::Eq => 13,
        Instruction::Neq => 14,
        Instruction::Lt => 15,
        Instruction::Lte => 16,
        Instruction::Gt => 17,
        Instruction::Gte => 18,
        Instruction::U32CheckedAdd => 19,
        Instruction::U32WrappingAdd => 20,
        Instruction::U32OverflowingAdd => 21,
        Instruction::U32CheckedSub => 22,
        Instruction::U32WrappingSub => 23,
        Instruction::U32OverflowingSub => 24,
        Instruction::U32CheckedMul => 25,
        Instruction::U32WrappingMul => 26,
        Instruction::U32OverflowingMul => 27,
        Instruction::Drop => 28,
        Instruction::DropW => 29,
        Instruction::PadW => 30,
        Instruction::CSwap => 31,
        Instruction::CSwapW => 32,
        Instruction::CDrop => 33,
        Instruction::CDropW => 34,
        Instruction::Dup0 => 35,
        Instruction::Dup1 => 36,
        Instruction::Dup2 => 37,
        Instruction::Dup3 => 38,
        Instruction::Dup4 => 39,
        Instruction::Dup5 => 40,
        Instruction::Dup6 => 41,
        Instruction::Dup7 => 42,
        Instruction::Dup8 => 43,
        Instruction::Dup9 => 44,
        Instruction::Dup10 => 45,
        Instruction::Dup11 => 46,
        Instruction::Dup12 => 47,
        Instruction::Dup13 => 48,
        Instruction::Dup14 => 49,
        Instruction::Dup15 => 50,
        Instruction::DupW0 => 51,
        Instruction::DupW1 => 52,
        Instruction::DupW2 => 53,
        Instruction::DupW3 => 54,
        Instruction::Swap => 55,
        Instruction::Swap2 => 56,
        Instruction::Swap3 => 57,
        Instruction::Swap4 => 58,
        Instruction::Swap5 => 59,
        Instruction::Swap6 => 60,
        Instruction::Swap7 => 61,
        Instruction::Swap8 => 62,
        Instruction::Swap9 => 63,
        Instruction::Swap10 => 64,
        Instruction::Swap11 => 65,
        Instruction::Swap12 => 66,
        Instruction::Swap13 => 67,
        Instruction::Swap14 => 68,
        Instruction::Swap15 => 69,
        Instruction::SwapW => 70,
        Instruction::SwapW2 => 71,
        Instruction::SwapW3 => 72,
        Instruction::MovUp2 => 73,
        Instruction::MovUp3 => 74,
        Instruction::MovUp4 => 75,
        Instruction::MovUp5 => 76,
        Instruction::MovUp6 => 77,
        Instruction::MovUp7 => 78,
        Instruction::MovUp8 => 79,
        Instruction::MovUp9 => 80,
        Instruction::MovUp10 => 81,
        Instruction::MovUp11 => 82,
        Instruction::MovUp12 => 83,
        Instruction::MovUp13 => 84,
        Instruction::MovUp14 => 85,
        Instruction::MovUp15 => 86,
        Instruction::MovDn2 => 87,
        Instruction::MovDn3 => 88,
        Instruction::MovDn4 => 89,
        Instruction::MovDn5 => 90,
        Instruction::MovDn6 => 91,
        Instruction::MovDn7 => 92,
        Instruction::MovDn8 => 93,
        Instruction::MovDn9 => 94,
        Instruction::MovDn10 => 95,
        Instruction::MovDn11 => 96,
        Instruction::MovDn12 => 97,
        Instruction::MovDn13 => 98,
        Instruction::MovDn14 => 99,
        Instruction::MovDn15 => 100,
        Instruction::MovUpW2 => 101,
        Instruction::MovUpW3 => 102,
        Instruction::MovDnW2 => 103,
        Instruction::MovDnW3 => 104,
        Instruction::PushConstants(_) => 105,
        Instruction::LocLoad(_) => 106,
        Instruction::LocStore(_) => 107,
        Instruction::AdvInject(_) => 108,
        Instruction::ExecLocal(_) => 109,
        Instruction::ExecImported(_) => 110,
        Instruction::CallLocal(_) => 111,
        Instruction::CallImported(_) => 112,
    }
}

/// Whether an instruction holds nothing besides its tag.
pub open spec fn is_plain(instruction: Instruction) -> bool {
    instruction_tag(instruction) < 105
}

/// The instruction with a tag, among those that hold nothing besides it.
pub open spec fn plain_of_tag(tag: u8) -> Option<Instruction> {
    if exists|instruction: Instruction| is_plain(instruction) && instruction_tag(instruction) == tag {
        Some(
            choose|instruction: Instruction|
                is_plain(instruction) && instruction_tag(instruction) == tag,
        )
    } else {
        None
    }
}

/// A plain instruction is the one that its tag names.
pub proof fn lemma_plain_tag(instruction: Instruction)
    requires
        is_plain(instruction),
    ensures
        plain_of_tag(instruction_tag(instruction)) == Some(instruction),
{
}

pub(crate) fn tag_of(instruction: &Instruction) -> (tag: u8)
    ensures
        tag == instruction_tag(*instruction),
{
    match instruction {
        Instruction::Assert => 0,
        Instruction::AssertEq => 1,
        Instruction::Assertz => 2,
        Instruction::Add => 3,
        Instruction::Sub => 4,
        Instruction::Mul => 5,
        Instruction::Div => 6,
        Instruction::Neg => 7,
        Instruction::Inv => 8,
        Instruction::Not => 9,
        Instruction::And => 10,
        Instruction::Or => 11,
        Instruction::Xor => 12,
        Instruction::Eq => 13,
        Instruction::Neq => 14,
        Instruction::Lt => 15,
        Instruction::Lte => 16,
        Instruction::Gt => 17,
        Instruction::Gte => 18,
        Instruction::U32CheckedAdd => 19,
        Instruction::U32WrappingAdd => 20,
        Instruction::U32OverflowingAdd => 21,
        Instruction::U32CheckedSub => 22,
        Instruction::U32WrappingSub => 23,
        Instruction::U32OverflowingSub => 24,
        Instruction::U32CheckedMul => 25,
        Instruction::U32WrappingMul => 26,
        Instruction::U32OverflowingMul => 27,
        Instruction::Drop => 28,
        Instruction::DropW => 29,
        Instruction::PadW => 30,
        Instruction::CSwap => 31,
        Instruction::CSwapW => 32,
        Instruction::CDrop => 33,
        Instruction::CDropW => 34,
        Instruction::Dup0 => 35,
        Instruction::Dup1 => 36,
        Instruction::Dup2 => 37,
        Instruction::Dup3 => 38,
        Instruction::Dup4 => 39,
        Instruction::Dup5 => 40,
        Instruction::Dup6 => 41,
        Instruction::Dup7 => 42,
        Instruction::Dup8 => 43,
        Instruction::Dup9 => 44,
        Instruction::Dup10 => 45,
        Instruction::Dup11 => 46,
        Instruction::Dup12 => 47,
        Instruction::Dup13 => 48,
        Instruction::Dup14 => 49,
        Instruction::Dup15 => 50,
        Instruction::DupW0 => 51,
        Instruction::DupW1 => 52,
        Instruction::DupW2 => 53,
        Instruction::DupW3 => 54,
        Instruction::Swap => 55,
        Instruction::Swap2 => 56,
        Instruction::Swap3 => 57,
        Instruction::Swap4 => 58,
        Instruction::Swap5 => 59,
        Instruction::Swap6 => 60,
        Instruction::Swap7 => 61,
        Instruction::Swap8 => 62,
        Instruction::Swap9 => 63,
        Instruction::Swap10 => 64,
        Instruction::Swap11 => 65,
        Instruction::Swap12 => 66,
        Instruction::Swap13 => 67,
        Instruction::Swap14 => 68,
        Instruction::Swap15 => 69,
        Instruction::SwapW => 70,
        Instruction::SwapW2 => 71,
        Instruction::SwapW3 => 72,
        Instruction::MovUp2 => 73,
        Instruction::MovUp3 => 74,
        Instruction::MovUp4 => 75,
        Instruction::MovUp5 => 76,
        Instruction::MovUp6 => 77,
        Instruction::MovUp7 => 78,
        Instruction::MovUp8 => 79,
        Instruction::MovUp9 => 80,
        Instruction::MovUp10 => 81,
        Instruction::MovUp11 => 82,
        Instruction::MovUp12 => 83,
        Instruction::MovUp13 => 84,
        Instruction::MovUp14 => 85,
        Instruction::MovUp15 => 86,
        Instruction::MovDn2 => 87,
        Instruction::MovDn3 => 88,
        Instruction::MovDn4 => 89,
        Instruction::MovDn5 => 90,
        Instruction::MovDn6 => 91,
        Instruction::MovDn7 => 92,
        Instruction::MovDn8 => 93,
        Instruction::MovDn9 => 94,
        Instruction::MovDn10 => 95,
        Instruction::MovDn11 => 96,
        Instruction::MovDn12 => 97,
        Instruction::MovDn13 => 98,
        Instruction::MovDn14 => 99,
        Instruction::MovDn15 => 100,
        Instruction::MovUpW2 => 101,
        Instruction::MovUpW3 => 102,
        Instruction::MovDnW2 => 103,
        Instruction::MovDnW3 => 104,
        Instruction::PushConstants(_) => 105,
        Instruction::LocLoad(_) => 106,
        Instruction::LocStore(_) => 107,
        Instruction::AdvInject(_) => 108,
        Instruction::ExecLocal(_) => 109,
        Instruction::ExecImported(_) => 110,
        Instruction::CallLocal(_) => 111,
        Instruction::CallImported(_) => 112,
    }
}

pub(crate) fn plain_from_tag(tag: u8) -> (r: Option<Instruction>)
    ensures
        r == plain_of_tag(tag),
        r matches Some(instruction) ==> is_plain(instruction),
{
    let r = match tag {
        0 => Some(Instruction::Assert),
        1 => Some(Instruction::AssertEq),
        2 => Some(Instruction::Assertz),
        3 => Some(Instruction::Add),
        4 => Some(Instruction::Sub),
        5 => Some(Instruction::Mul),
        6 => Some(Instruction::Div),
        7 => Some(Instruction::Neg),
        8 => Some(Instruction::Inv),
        9 => Some(Instruction::Not),
        10 => Some(Instruction::And),
        11 => Some(Instruction::Or),
        12 => Some(Instruction::Xor),
        13 => Some(Instruction::Eq),
        14 => Some(Instruction::Neq),
        15 => Some(Instruction::Lt),
        16 => Some(Instruction::Lte),
        17 => Some(Instruction::Gt),
        18 => Some(Instruction::Gte),
        19 => Some(Instruction::U32CheckedAdd),
        20 => Some(Instruction::U32WrappingAdd),
        21 => Some(Instruction::U32OverflowingAdd),
        22 => Some(Instruction::U32CheckedSub),
        23 => Some(Instruction::U32WrappingSub),
        24 => Some(Instruction::U32OverflowingSub),
        25 => Some(Instruction::U32CheckedMul),
        26 => Some(Instruction::U32WrappingMul),
        27 => Some(Instruction::U32OverflowingMul),
        28 => Some(Instruction::Drop),
        29 => Some(Instruction::DropW),
        30 => Some(Instruction::PadW),
        31 => Some(Instruction::CSwap),
        32 => Some(Instruction::CSwapW),
        33 => Some(Instruction::CDrop),
        34 => Some(Instruction::CDropW),
        35 => Some(Instruction::Dup0),
        36 => Some(Instruction::Dup1),
        37 => Some(Instruction::Dup2),
        38 => Some(Instruction::Dup3),
        39 => Some(Instruction::Dup4),
        40 => Some(Instruction::Dup5),
        41 => Some(Instruction::Dup6),
        42 => Some(Instruction::Dup7),
        43 => Some(Instruction::Dup8),
        44 => Some(Instruction::Dup9),
        45 => Some(Instruction::Dup10),
        46 => Some(Instruction::Dup11),
        47 => Some(Instruction::Dup12),
        48 => Some(Instruction::Dup13),
        49 => Some(Instruction::Dup14),
        50 => Some(Instruction::Dup15),
        51 => Some(Instruction::DupW0),
        52 => Some(Instruction::DupW1),
        53 => Some(Instruction::DupW2),
        54 => Some(Instruction::DupW3),
        55 => Some(Instruction::Swap),
        56 => Some(Instruction::Swap2),
        57 => Some(Instruction::Swap3),
        58 => Some(Instruction::Swap4),
        59 => Some(Instruction::Swap5),
        60 => Some(Instruction::Swap6),
        61 => Some(Instruction::Swap7),
        62 => Some(Instruction::Swap8),
        63 => Some(Instruction::Swap9),
        64 => Some(Instruction::Swap10),
        65 => Some(Instruction::Swap11),
        66 => Some(Instruction::Swap12),
        67 => Some(Instruction::Swap13),
        68 => Some(Instruction::Swap14),
        69 => Some(Instruction::Swap15),
        70 => Some(Instruction::SwapW),
        71 => Some(Instruction::SwapW2),
        72 => Some(Instruction::SwapW3),
        73 => Some(Instruction::MovUp2),
        74 => Some(Instruction::MovUp3),
        75 => Some(Instruction::MovUp4),
        76 => Some(Instruction::MovUp5),
        77 => Some(Instruction::MovUp6),
        78 => Some(Instruction::MovUp7),
        79 => Some(Instruction::MovUp8),
        80 => Some(Instruction::MovUp9),
        81 => Some(Instruction::MovUp10),
        82 => Some(Instruction::MovUp11),
        83 => Some(Instruction::MovUp12),
        84 => Some(Instruction::MovUp13),
        85 => Some(Instruction::MovUp14),
        86 => Some(Instruction::MovUp15),
        87 => Some(Instruction::MovDn2),
        88 => Some(Instruction::MovDn3),
        89 => Some(Instruction::MovDn4),
        90 => Some(Instruction::MovDn5),
        91 => Some(Instruction::MovDn6),
        92 => Some(Instruction::MovDn7),
        93 => Some(Instruction::MovDn8),
        94 => Some(Instruction::MovDn9),
        95 => Some(Instruction::MovDn10),
        96 => Some(Instruction::MovDn11),
        97 => Some(Instruction::MovDn12),
        98 => Some(Instruction::MovDn13),
        99 => Some(Instruction::MovDn14),
        100 => Some(Instruction::MovDn15),
        101 => Some(Instruction::MovUpW2),
        102 => Some(Instruction::MovUpW3),
        103 => Some(Instruction::MovDnW2),
        104 => Some(Instruction::MovDnW3),
        _ => None,
    };
    assert(r is Some ==> is_plain(r->Some_0) && instruction_tag(r->Some_0) == tag);
    r
}

/// The value that was read, seen through `f`.
pub open spec fn map_value<T, U>(r: Result<(T, Seq<u8>), DecodeError>, f: spec_fn(T) -> U) -> Result<
    (U, Seq<u8>),
    DecodeError,
> {
    match r {
        Ok((value, rest)) => Ok((f(value), rest)),
        Err(e) => Err(e),
    }
}

// INSTRUCTIONS
// ================================================================================================

/// An advice injector: its kind as a byte, and for `InsertHdword` the domain.
pub open spec fn encode_injector(injector: AdviceInjectorNode) -> Seq<u8> {
    match injector {
        AdviceInjectorNode::PushU64div => seq![0u8],
        AdviceInjectorNode::PushExt2intt => seq![1u8],
        AdviceInjectorNode::PushSmtGet => seq![2u8],
        AdviceInjectorNode::PushMapVal => seq![3u8],
        AdviceInjectorNode::PushMtNode => seq![4u8],
        AdviceInjectorNode::InsertMem => seq![5u8],
        AdviceInjectorNode::InsertHdword { domain } => seq![6u8, domain],
    }
}

/// The advice injector that the bytes start with.
pub open spec fn decode_injector(bytes: Seq<u8>) -> Result<
    (AdviceInjectorNode, Seq<u8>),
    DecodeError,
> {
    match decode_u8(bytes) {
        Err(e) => Err(e),
        Ok((kind, rest)) => if kind == 0 {
            Ok((AdviceInjectorNode::PushU64div, rest))
        } else if kind == 1 {
            Ok((AdviceInjectorNode::PushExt2intt, rest))
        } else if kind == 2 {
            Ok((AdviceInjectorNode::PushSmtGet, rest))
        } else if kind == 3 {
            Ok((AdviceInjectorNode::PushMapVal, rest))
        } else if kind == 4 {
            Ok((AdviceInjectorNode::PushMtNode, rest))
        } else if kind == 5 {
            Ok((AdviceInjectorNode::InsertMem, rest))
        } else if kind == 6 {
            map_value(
                decode_u8(rest),
                |domain: u8| AdviceInjectorNode::InsertHdword { domain },
            )
        } else {
            Err(DecodeError::UnknownTag { tag: kind })
        },
    }
}

/// Field elements, one behind the other.
pub open spec fn encode_felts(constants: Seq<Felt>) -> Seq<u8>
    decreases constants.len(),
{
    if constants.len() == 0 {
        Seq::empty()
    } else {
        encode_felt(constants[0]) + encode_felts(constants.drop_first())
    }
}

/// The `count` field elements that the bytes start with, behind the elements
/// `done`.
pub open spec fn decode_felts(bytes: Seq<u8>, count: nat, done: Seq<Felt>) -> Result<
    (Seq<Felt>, Seq<u8>),
    DecodeError,
>
    decreases count,
{
    if count == 0 {
        Ok((done, bytes))
    } else {
        match decode_felt(bytes) {
            Err(e) => Err(e),
            Ok((element, rest)) => decode_felts(rest, (count - 1) as nat, done.push(element)),
        }
    }
}

/// An instruction: its tag, then what it holds. The constant list holds the
/// number of its constants as a 64-bit number and then the constants; a local
/// index is a 16-bit number; a content address is its 24 bytes.
pub open spec fn encode_instruction(instruction: InstructionView) -> Seq<u8> {
    match instruction {
        InstructionView::Constants(constants) => seq![105u8] + spec_u64_to_le_bytes(
            constants.len() as u64,
        ) + encode_felts(constants),
        InstructionView::Fixed(fixed) => seq![instruction_tag(fixed)] + match fixed {
            Instruction::LocLoad(index) => encode_felt(index),
            Instruction::LocStore(index) => encode_felt(index),
            Instruction::AdvInject(injector) => encode_injector(injector),
            Instruction::ExecLocal(index) => spec_u16_to_le_bytes(index),
            Instruction::ExecImported(digest) => digest@,
            Instruction::CallLocal(index) => spec_u16_to_le_bytes(index),
            Instruction::CallImported(digest) => digest@,
            _ => Seq::empty(),
        },
    }
}

/// The instruction that the bytes start with.
pub open spec fn decode_instruction(bytes: Seq<u8>) -> Result<
    (InstructionView, Seq<u8>),
    DecodeError,
> {
    match decode_u8(bytes) {
        Err(e) => Err(e),
        Ok((tag, rest)) => if tag == 105 {
            match decode_u64(rest) {
                Err(e) => Err(e),
                Ok((count, rest)) => map_value(
                    decode_felts(rest, count as nat, Seq::empty()),
                    |constants: Seq<Felt>| InstructionView::Constants(constants),
                ),
            }
        } else if tag == 106 {
            map_value(
                decode_felt(rest),
                |index: Felt| InstructionView::Fixed(Instruction::LocLoad(index)),
            )
        } else if tag == 107 {
            map_value(
                decode_felt(rest),
                |index: Felt| InstructionView::Fixed(Instruction::LocStore(index)),
            )
        } else if tag == 108 {
            map_value(
                decode_injector(rest),
                |injector: AdviceInjectorNode|
                    InstructionView::Fixed(Instruction::AdvInject(injector)),
            )
        } else if tag == 109 {
            map_value(
                decode_u16(rest),
                |index: u16| InstructionView::Fixed(Instruction::ExecLocal(index)),
            )
        } else if tag == 110 {
            map_value(
                decode_digest(rest),
                |digest: [u8; 24]| InstructionView::Fixed(Instruction::ExecImported(digest)),
            )
        } else if tag == 111 {
            map_value(
                decode_u16(rest),
                |index: u16| InstructionView::Fixed(Instruction::CallLocal(index)),
            )
        } else if tag == 112 {
            map_value(
                decode_digest(rest),
                |digest: [u8; 24]| InstructionView::Fixed(Instruction::CallImported(digest)),
            )
        } else {
            match plain_of_tag(tag) {
                Some(fixed) => Ok((InstructionView::Fixed(fixed), rest)),
                None => Err(DecodeError::UnknownTag { tag }),
            }
        },
    }
}

// NODES
// ================================================================================================

/// A node: an instruction as it is, or the tag of the composite and then its
/// count and bodies.
pub open spec fn encode_node(node: NodeView) -> Seq<u8>
    decreases node, 0int,
{
    match node {
        NodeView::Instruction(instruction) => encode_instruction(instruction),
        NodeView::IfElse(then_body, else_body) => seq![IF_ELSE_TAG] + encode_nodes(then_body)
            + encode_nodes(else_body),
        NodeView::Repeat(count, body) => seq![REPEAT_TAG] + spec_u32_to_le_bytes(count)
            + encode_nodes(body),
        NodeView::While(body) => seq![WHILE_TAG] + encode_nodes(body),
    }
}

/// Nodes, one behind the other.
pub open spec fn encode_items(nodes: Seq<NodeView>) -> Seq<u8>
    decreases nodes, 0int,
{
    if nodes.len() == 0 {
        Seq::empty()
    } else {
        encode_node(nodes[0]) + encode_items(nodes.drop_first())
    }
}

/// A body: the number of its nodes as a 64-bit number, then the nodes.
pub open spec fn encode_nodes(nodes: Seq<NodeView>) -> Seq<u8>
    decreases nodes, 1int,
{
    spec_u64_to_le_bytes(nodes.len() as u64) + encode_items(nodes)
}

/// The node that the bytes start with.
pub open spec fn decode_node(bytes: Seq<u8>) -> Result<(NodeView, Seq<u8>), DecodeError>
    decreases bytes.len(), 0int,
{
    match decode_u8(bytes) {
        Err(e) => Err(e),
        Ok((tag, rest)) => if tag == IF_ELSE_TAG {
            match decode_nodes(rest) {
                Err(e) => Err(e),
                Ok((then_body, rest)) => if rest.len() < bytes.len() {
                    match decode_nodes(rest) {
                        Err(e) => Err(e),
                        Ok((else_body, rest)) => Ok((NodeView::IfElse(then_body, else_body), rest)),
                    }
                } else {
                    // What is left is shorter than what it is left of.
                    Err(DecodeError::UnexpectedEnd)
                },
            }
        } else if tag == REPEAT_TAG {
            match decode_u32(rest) {
                Err(e) => Err(e),
                Ok((count, rest)) => match decode_nodes(rest) {
                    Err(e) => Err(e),
                    Ok((body, rest)) => Ok((NodeView::Repeat(count, body), rest)),
                },
            }
        } else if tag == WHILE_TAG {
            match decode_nodes(rest) {
                Err(e) => Err(e),
                Ok((body, rest)) => Ok((NodeView::While(body), rest)),
            }
        } else {
            match decode_instruction(bytes) {
                Err(e) => Err(e),
                Ok((instruction, rest)) => Ok((NodeView::Instruction(instruction), rest)),
            }
        },
    }
}

/// The `count` nodes that the bytes start with, behind the nodes `done`.
pub open spec fn decode_items(bytes: Seq<u8>, count: nat, done: Seq<NodeView>) -> Result<
    (Seq<NodeView>, Seq<u8>),
    DecodeError,
>
    decreases bytes.len(), 1int,
{
    if count == 0 {
        Ok((done, bytes))
    } else {
        match decode_node(bytes) {
            Err(e) => Err(e),
            Ok((node, rest)) => if rest.len() < bytes.len() {
                decode_items(rest, (count - 1) as nat, done.push(node))
            } else {
                // A node takes at least the byte of its tag.
                Err(DecodeError::UnexpectedEnd)
            },
        }
    }
}

/// The body that the bytes start with.
pub open spec fn decode_nodes(bytes: Seq<u8>) -> Result<(Seq<NodeView>, Seq<u8>), DecodeError>
    decreases bytes.len(), 2int,
{
    match decode_u64(bytes) {
        Err(e) => Err(e),
        Ok((count, rest)) => decode_items(rest, count as nat, Seq::empty()),
    }
}

/// An instruction takes at least the byte of its tag.
pub proof fn lemma_instruction_consumes(bytes: Seq<u8>)
    ensures
        decode_instruction(bytes) matches Ok((_, rest)) ==> rest.len() < bytes.len(),
{
    if bytes.len() > 0 {
        let rest = bytes.skip(1);
        if bytes[0] == 105 && rest.len() >= 8 {
            lemma_felts_consume(
                rest.skip(8),
                spec_u64_from_le_bytes(rest.take(8)) as nat,
                Seq::empty(),
            );
        }
    }
}

/// Field elements leave no more bytes than there were.
pub proof fn lemma_felts_consume(bytes: Seq<u8>, count: nat, done: Seq<Felt>)
    ensures
        decode_felts(bytes, count, done) matches Ok((_, rest)) ==> rest.len() <= bytes.len(),
    decreases count,
{
    if count > 0 {
        match decode_felt(bytes) {
            Ok((element, rest)) => {
                lemma_felts_consume(rest, (count - 1) as nat, done.push(element));
            },
            Err(_) => {},
        }
    }
}

/// A node takes at least the byte of its tag. So the checks of lengths in
/// the decoder always hold.
pub proof fn lemma_node_consumes(bytes: Seq<u8>)
    ensures
        decode_node(bytes) matches Ok((_, rest)) ==> rest.len() < bytes.len(),
    decreases bytes.len(), 0int,
{
    if bytes.len() > 0 {
        let tag = bytes[0];
        let rest = bytes.skip(1);
        if tag == IF_ELSE_TAG {
            lemma_nodes_consume(rest);
            match decode_nodes(rest) {
                Ok((_, rest)) => {
                    lemma_nodes_consume(rest);
                },
                Err(_) => {},
            }
        } else if tag == REPEAT_TAG {
            if rest.len() >= 4 {
                lemma_nodes_consume(rest.skip(4));
            }
        } else if tag == WHILE_TAG {
            lemma_nodes_consume(rest);
        } else {
            lemma_instruction_consumes(bytes);
        }
    }
}

/// Nodes leave no more bytes than there were.
pub proof fn lemma_items_consume(bytes: Seq<u8>, count: nat, done: Seq<NodeView>)
    ensures
        decode_items(bytes, count, done) matches Ok((_, rest)) ==> rest.len() <= bytes.len(),
    decreases bytes.len(), 1int,
{
    if count > 0 {
        lemma_node_consumes(bytes);
        match decode_node(bytes) {
            Ok((node, rest)) => {
                lemma_items_consume(rest, (count - 1) as nat, done.push(node));
            },
            Err(_) => {},
        }
    }
}

/// A body takes at least the bytes of its length.
pub proof fn lemma_nodes_consume(bytes: Seq<u8>)
    ensures
        decode_nodes(bytes) matches Ok((_, rest)) ==> rest.len() < bytes.len(),
    decreases bytes.len(), 2int,
{
    if bytes.len() >= 8 {
        lemma_items_consume(
            bytes.skip(8),
            spec_u64_from_le_bytes(bytes.take(8)) as nat,
            Seq::empty(),
        );
    }
}

// PROCEDURES
// ================================================================================================

/// A procedure: its name, the export flag, the number of locals as a 32-bit
/// number, the index as a 16-bit number, and the body.
pub open spec fn encode_procedure(p: ProcView) -> Seq<u8> {
    encode_string(p.name) + encode_flag(p.is_export) + spec_u32_to_le_bytes(p.num_locals)
        + spec_u16_to_le_bytes(p.index) + encode_nodes(p.body)
}

/// The procedure that the bytes start with.
pub open spec fn decode_procedure(bytes: Seq<u8>) -> Result<(ProcView, Seq<u8>), DecodeError> {
    match decode_string(bytes) {
        Err(e) => Err(e),
        Ok((name, rest)) => match decode_flag(rest) {
            Err(e) => Err(e),
            Ok((is_export, rest)) => match decode_u32(rest) {
                Err(e) => Err(e),
                Ok((num_locals, rest)) => match decode_u16(rest) {
                    Err(e) => Err(e),
                    Ok((index, rest)) => match decode_nodes(rest) {
                        Err(e) => Err(e),
                        Ok((body, rest)) => Ok(
                            (ProcView { name, is_export, num_locals, index, body }, rest),
                        ),
                    },
                },
            },
        },
    }
}

/// Procedures, one behind the other.
pub open spec fn encode_procedures(procs: Seq<ProcView>) -> Seq<u8>
    decreases procs.len(),
{
    if procs.len() == 0 {
        Seq::empty()
    } else {
        encode_procedure(procs[0]) + encode_procedures(procs.drop_first())
    }
}

/// The `count` procedures that the bytes start with, behind the procedures
/// `done`. Each name must come after the name before it.
pub open spec fn decode_procedures(bytes: Seq<u8>, count: nat, done: Seq<ProcView>) -> Result<
    (Seq<ProcView>, Seq<u8>),
    DecodeError,
>
    decreases count,
{
    if count == 0 {
        Ok((done, bytes))
    } else {
        match decode_procedure(bytes) {
            Err(e) => Err(e),
            Ok((p, rest)) => if done.len() > 0 && !precedes(done.last().name, p.name) {
                Err(DecodeError::InvalidValue)
            } else {
                decode_procedures(rest, (count - 1) as nat, done.push(p))
            },
        }
    }
}

/// The procedures of a module or program: their number as a 64-bit number,
/// then the procedures in the order of their names.
pub open spec fn encode_procedure_map(procs: Seq<ProcView>) -> Seq<u8> {
    spec_u64_to_le_bytes(procs.len() as u64) + encode_procedures(procs)
}

/// The procedures that the bytes start with.
pub open spec fn decode_procedure_map(bytes: Seq<u8>) -> Result<
    (Seq<ProcView>, Seq<u8>),
    DecodeError,
> {
    match decode_u64(bytes) {
        Err(e) => Err(e),
        Ok((count, rest)) => decode_procedures(rest, count as nat, Seq::empty()),
    }
}

// PROGRAMS AND MODULES
// ================================================================================================

/// The two bytes that a stream of the given kind starts with.
pub open spec fn encode_header(kind: u8) -> Seq<u8> {
    seq![FORMAT_VERSION, kind]
}

/// Checks that the bytes start with the header of a stream of the given kind.
pub open spec fn decode_header(bytes: Seq<u8>, kind: u8) -> Result<((), Seq<u8>), DecodeError> {
    match decode_u8(bytes) {
        Err(e) => Err(e),
        Ok((version, rest)) => if version != FORMAT_VERSION {
            Err(DecodeError::UnsupportedVersion { version })
        } else {
            match decode_u8(rest) {
                Err(e) => Err(e),
                Ok((found, rest)) => if found != kind {
                    Err(DecodeError::InvalidValue)
                } else {
                    Ok(((), rest))
                },
            }
        },
    }
}

/// The bytes of a program: the header, the procedures, the body.
pub open spec fn encode_program(program: ProgramView) -> Seq<u8> {
    encode_header(PROGRAM_KIND) + encode_procedure_map(program.procedures) + encode_nodes(
        program.body,
    )
}

/// The program that the bytes start with, and the bytes behind it.
pub open spec fn decode_program(bytes: Seq<u8>) -> Result<(ProgramView, Seq<u8>), DecodeError> {
    match decode_header(bytes, PROGRAM_KIND) {
        Err(e) => Err(e),
        Ok((_, rest)) => match decode_procedure_map(rest) {
            Err(e) => Err(e),
            Ok((procedures, rest)) => match decode_nodes(rest) {
                Err(e) => Err(e),
                Ok((body, rest)) => Ok((ProgramView { procedures, body }, rest)),
            },
        },
    }
}

/// The bytes of a module: the header, the procedures.
pub open spec fn encode_module(module: ModuleView) -> Seq<u8> {
    encode_header(MODULE_KIND) + encode_procedure_map(module.procedures)
}

/// The module that the bytes start with, and the bytes behind it.
pub open spec fn decode_module(bytes: Seq<u8>) -> Result<(ModuleView, Seq<u8>), DecodeError> {
    match decode_header(bytes, MODULE_KIND) {
        Err(e) => Err(e),
        Ok((_, rest)) => match decode_procedure_map(rest) {
            Err(e) => Err(e),
            Ok((procedures, rest)) => Ok((ModuleView { procedures }, rest)),
        },
    }
}

impl ProgramView {
    /// The procedures are sorted by name, a 64-bit number can count them, and
    /// they and the body are well formed.
    pub open spec fn wf(self) -> bool {
        procedures_wf(self.procedures) && crate::nodes::nodes_wf(self.body)
    }
}

impl ModuleView {
    /// The procedures are sorted by name, a 64-bit number can count them, and
    /// they are well formed.
    pub open spec fn wf(self) -> bool {
        procedures_wf(self.procedures)
    }
}

/// The procedures are sorted by name, a 64-bit number can count them, and
/// each is well formed.
pub open spec fn procedures_wf(procs: Seq<ProcView>) -> bool {
    procs.len() <= u64::MAX && sorted_by_name(procs) && forall|i: int|
        0 <= i < procs.len() ==> (#[trigger] procs[i]).wf()
}

} // verus!
