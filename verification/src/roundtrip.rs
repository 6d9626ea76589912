use crate::errors::DecodeError;
use crate::felt::Felt;
use crate::format::{
    decode_felts, decode_header, decode_injector, decode_instruction, decode_items, decode_module,
    decode_node, decode_nodes, decode_procedure, decode_procedure_map, decode_procedures,
    decode_program, encode_felts, encode_header, encode_injector, encode_instruction,
    encode_items, encode_module, encode_node, encode_nodes, encode_procedure,
    encode_procedure_map, encode_procedures, encode_program, instruction_tag, is_plain,
    lemma_plain_tag, procedures_wf, FORMAT_VERSION,
};
use crate::nodes::{
    nodes_wf, AdviceInjectorNode, Instruction, InstructionView, NodeView, ProcView,
};
use crate::procs::sorted_by_name;
use crate::program::{ModuleView, ProgramView};
use crate::wire::{
    encode_felt, encode_flag, encode_string, lemma_digest, lemma_felt, lemma_flag, lemma_string,
    lemma_u16, lemma_u32, lemma_u64, lemma_u8,
};
use vstd::bytes::*;
use vstd::prelude::*;

verus! {

/// Canonical field elements are read as they were written.
pub proof fn lemma_felts_round_trip(constants: Seq<Felt>, rest: Seq<u8>, done: Seq<Felt>)
    requires
        forall|i: int| 0 <= i < constants.len() ==> (#[trigger] constants[i]).is_canonical(),
    ensures
        decode_felts(encode_felts(constants) + rest, constants.len(), done) == Ok::<
            (Seq<Felt>, Seq<u8>),
            DecodeError,
        >((done + constants, rest)),
    decreases constants.len(),
{
    if constants.len() == 0 {
        assert(encode_felts(constants) + rest =~= rest);
        assert(done + constants =~= done);
    } else {
        let first = constants[0];
        let tail = constants.drop_first();
        assert(encode_felts(constants) + rest =~= encode_felt(first) + (encode_felts(tail) + rest));
        lemma_felt(first, encode_felts(tail) + rest);
        assert forall|i: int| 0 <= i < tail.len() implies (#[trigger] tail[i]).is_canonical() by {
            assert(tail[i] == constants[i + 1]);
        }
        lemma_felts_round_trip(tail, rest, done.push(first));
        assert(done.push(first) + tail =~= done + constants);
    }
}

/// An advice injector is read as it was written.
pub proof fn lemma_injector_round_trip(injector: AdviceInjectorNode, rest: Seq<u8>)
    ensures
        decode_injector(encode_injector(injector) + rest) == Ok::<
            (AdviceInjectorNode, Seq<u8>),
            DecodeError,
        >((injector, rest)),
{
    match injector {
        AdviceInjectorNode::PushU64div => lemma_u8(0, rest),
        AdviceInjectorNode::PushExt2intt => lemma_u8(1, rest),
        AdviceInjectorNode::PushSmtGet => lemma_u8(2, rest),
        AdviceInjectorNode::PushMapVal => lemma_u8(3, rest),
        AdviceInjectorNode::PushMtNode => lemma_u8(4, rest),
        AdviceInjectorNode::InsertMem => lemma_u8(5, rest),
        AdviceInjectorNode::InsertHdword { domain } => {
            assert(seq![6u8, domain] + rest =~= seq![6u8] + (seq![domain] + rest));
            lemma_u8(6, seq![domain] + rest);
            lemma_u8(domain, rest);
        },
    }
}

/// A well-formed instruction is read as it was written.
pub proof fn lemma_instruction_round_trip(instruction: InstructionView, rest: Seq<u8>)
    requires
        instruction.wf(),
    ensures
        decode_instruction(encode_instruction(instruction) + rest) == Ok::<
            (InstructionView, Seq<u8>),
            DecodeError,
        >((instruction, rest)),
        (encode_instruction(instruction) + rest)[0] <= 112,
        encode_instruction(instruction).len() > 0,
{
    match instruction {
        InstructionView::Constants(constants) => {
            let count = spec_u64_to_le_bytes(constants.len() as u64);
            let tail = count + (encode_felts(constants) + rest);
            assert(encode_instruction(instruction) + rest =~= seq![105u8] + tail);
            lemma_u8(105, tail);
            lemma_u64(constants.len() as u64, encode_felts(constants) + rest);
            lemma_felts_round_trip(constants, rest, Seq::empty());
            assert(Seq::<Felt>::empty() + constants =~= constants);
        },
        InstructionView::Fixed(fixed) => {
            let tag = instruction_tag(fixed);
            match fixed {
                Instruction::LocLoad(index) => {
                    assert(encode_instruction(instruction) + rest =~= seq![tag] + (encode_felt(
                        index,
                    ) + rest));
                    lemma_u8(tag, encode_felt(index) + rest);
                    lemma_felt(index, rest);
                },
                Instruction::LocStore(index) => {
                    assert(encode_instruction(instruction) + rest =~= seq![tag] + (encode_felt(
                        index,
                    ) + rest));
                    lemma_u8(tag, encode_felt(index) + rest);
                    lemma_felt(index, rest);
                },
                Instruction::AdvInject(injector) => {
                    assert(encode_instruction(instruction) + rest =~= seq![tag] + (encode_injector(
                        injector,
                    ) + rest));
                    lemma_u8(tag, encode_injector(injector) + rest);
                    lemma_injector_round_trip(injector, rest);
                },
                Instruction::ExecLocal(index) => {
                    assert(encode_instruction(instruction) + rest =~= seq![tag] + (
                    spec_u16_to_le_bytes(index) + rest));
                    lemma_u8(tag, spec_u16_to_le_bytes(index) + rest);
                    lemma_u16(index, rest);
                },
                Instruction::CallLocal(index) => {
                    assert(encode_instruction(instruction) + rest =~= seq![tag] + (
                    spec_u16_to_le_bytes(index) + rest));
                    lemma_u8(tag, spec_u16_to_le_bytes(index) + rest);
                    lemma_u16(index, rest);
                },
                Instruction::ExecImported(digest) => {
                    assert(encode_instruction(instruction) + rest =~= seq![tag] + (digest@ + rest));
                    lemma_u8(tag, digest@ + rest);
                    lemma_digest(digest, rest);
                },
                Instruction::CallImported(digest) => {
                    assert(encode_instruction(instruction) + rest =~= seq![tag] + (digest@ + rest));
                    lemma_u8(tag, digest@ + rest);
                    lemma_digest(digest, rest);
                },
                _ => {
                    assert(is_plain(fixed));
                    assert(encode_instruction(instruction) + rest =~= seq![tag] + rest);
                    lemma_u8(tag, rest);
                    lemma_plain_tag(fixed);
                },
            }
        },
    }
}

/// A well-formed node is read as it was written.
pub proof fn lemma_node_round_trip(node: NodeView, rest: Seq<u8>)
    requires
        node.wf(),
    ensures
        decode_node(encode_node(node) + rest) == Ok::<(NodeView, Seq<u8>), DecodeError>(
            (node, rest),
        ),
        encode_node(node).len() > 0,
    decreases node, 0int,
{
    match node {
        NodeView::Instruction(instruction) => {
            lemma_instruction_round_trip(instruction, rest);
            let bytes = encode_instruction(instruction) + rest;
            assert(bytes.take(1)[0] == bytes[0]);
        },
        NodeView::IfElse(then_body, else_body) => {
            let tail = encode_nodes(then_body) + (encode_nodes(else_body) + rest);
            assert(encode_node(node) + rest =~= seq![253u8] + tail);
            lemma_u8(253, tail);
            lemma_nodes_round_trip(then_body, encode_nodes(else_body) + rest);
            lemma_nodes_round_trip(else_body, rest);
        },
        NodeView::Repeat(count, body) => {
            let tail = spec_u32_to_le_bytes(count) + (encode_nodes(body) + rest);
            assert(encode_node(node) + rest =~= seq![254u8] + tail);
            lemma_u8(254, tail);
            lemma_u32(count, encode_nodes(body) + rest);
            lemma_nodes_round_trip(body, rest);
        },
        NodeView::While(body) => {
            let tail = encode_nodes(body) + rest;
            assert(encode_node(node) + rest =~= seq![255u8] + tail);
            lemma_u8(255, tail);
            lemma_nodes_round_trip(body, rest);
        },
    }
}

/// Well-formed nodes are read as they were written.
pub proof fn lemma_items_round_trip(nodes: Seq<NodeView>, rest: Seq<u8>, done: Seq<NodeView>)
    requires
        forall|i: int| 0 <= i < nodes.len() ==> (#[trigger] nodes[i]).wf(),
    ensures
        decode_items(encode_items(nodes) + rest, nodes.len(), done) == Ok::<
            (Seq<NodeView>, Seq<u8>),
            DecodeError,
        >((done + nodes, rest)),
    decreases nodes, 0int,
{
    if nodes.len() == 0 {
        assert(encode_items(nodes) + rest =~= rest);
        assert(done + nodes =~= done);
    } else {
        let first = nodes[0];
        let tail = nodes.drop_first();
        assert(encode_items(nodes) + rest =~= encode_node(first) + (encode_items(tail) + rest));
        lemma_node_round_trip(first, encode_items(tail) + rest);
        assert forall|i: int| 0 <= i < tail.len() implies (#[trigger] tail[i]).wf() by {
            assert(tail[i] == nodes[i + 1]);
        }
        lemma_items_round_trip(tail, rest, done.push(first));
        assert(done.push(first) + tail =~= done + nodes);
    }
}

/// A well-formed body is read as it was written.
pub proof fn lemma_nodes_round_trip(nodes: Seq<NodeView>, rest: Seq<u8>)
    requires
        nodes_wf(nodes),
    ensures
        decode_nodes(encode_nodes(nodes) + rest) == Ok::<(Seq<NodeView>, Seq<u8>), DecodeError>(
            (nodes, rest),
        ),
    decreases nodes, 1int,
{
    assert(encode_nodes(nodes) + rest =~= spec_u64_to_le_bytes(nodes.len() as u64) + (encode_items(
        nodes,
    ) + rest));
    lemma_u64(nodes.len() as u64, encode_items(nodes) + rest);
    lemma_items_round_trip(nodes, rest, Seq::empty());
    assert(Seq::<NodeView>::empty() + nodes =~= nodes);
}

/// A well-formed procedure is read as it was written.
pub proof fn lemma_procedure_round_trip(p: ProcView, rest: Seq<u8>)
    requires
        p.wf(),
    ensures
        decode_procedure(encode_procedure(p) + rest) == Ok::<(ProcView, Seq<u8>), DecodeError>(
            (p, rest),
        ),
{
    let after_index = encode_nodes(p.body) + rest;
    let after_locals = spec_u16_to_le_bytes(p.index) + after_index;
    let after_flag = spec_u32_to_le_bytes(p.num_locals) + after_locals;
    let after_name = encode_flag(p.is_export) + after_flag;
    assert(encode_procedure(p) + rest =~= encode_string(p.name) + after_name);
    lemma_string(p.name, after_name);
    lemma_flag(p.is_export, after_flag);
    lemma_u32(p.num_locals, after_locals);
    lemma_u16(p.index, after_index);
    lemma_nodes_round_trip(p.body, rest);
}

/// Well-formed procedures in the order of their names are read as they were
/// written.
pub proof fn lemma_procedures_round_trip(
    procs: Seq<ProcView>,
    rest: Seq<u8>,
    done: Seq<ProcView>,
)
    requires
        forall|i: int| 0 <= i < procs.len() ==> (#[trigger] procs[i]).wf(),
        sorted_by_name(done + procs),
    ensures
        decode_procedures(encode_procedures(procs) + rest, procs.len(), done) == Ok::<
            (Seq<ProcView>, Seq<u8>),
            DecodeError,
        >((done + procs, rest)),
    decreases procs.len(),
{
    if procs.len() == 0 {
        assert(encode_procedures(procs) + rest =~= rest);
        assert(done + procs =~= done);
    } else {
        let first = procs[0];
        let tail = procs.drop_first();
        assert(encode_procedures(procs) + rest =~= encode_procedure(first) + (encode_procedures(
            tail,
        ) + rest));
        lemma_procedure_round_trip(first, encode_procedures(tail) + rest);
        assert forall|i: int| 0 <= i < tail.len() implies (#[trigger] tail[i]).wf() by {
            assert(tail[i] == procs[i + 1]);
        }
        assert(done.push(first) + tail =~= done + procs);
        if done.len() > 0 {
            let all = done + procs;
            assert(all[done.len() - 1] == done.last());
            assert(all[done.len() as int] == first);
        }
        lemma_procedures_round_trip(tail, rest, done.push(first));
    }
}

/// Well-formed procedures of a module or program are read as they were
/// written.
pub proof fn lemma_procedure_map_round_trip(procs: Seq<ProcView>, rest: Seq<u8>)
    requires
        procedures_wf(procs),
    ensures
        decode_procedure_map(encode_procedure_map(procs) + rest) == Ok::<
            (Seq<ProcView>, Seq<u8>),
            DecodeError,
        >((procs, rest)),
{
    assert(encode_procedure_map(procs) + rest =~= spec_u64_to_le_bytes(procs.len() as u64) + (
    encode_procedures(procs) + rest));
    lemma_u64(procs.len() as u64, encode_procedures(procs) + rest);
    assert(Seq::<ProcView>::empty() + procs =~= procs);
    lemma_procedures_round_trip(procs, rest, Seq::empty());
}

/// The header of a stream is read as it was written.
pub proof fn lemma_header_round_trip(kind: u8, rest: Seq<u8>)
    ensures
        decode_header(encode_header(kind) + rest, kind) == Ok::<((), Seq<u8>), DecodeError>(
            ((), rest),
        ),
{
    assert(encode_header(kind) + rest =~= seq![FORMAT_VERSION] + (seq![kind] + rest));
    lemma_u8(FORMAT_VERSION, seq![kind] + rest);
    lemma_u8(kind, rest);
}

/// Decoding undoes encoding: the bytes of a well-formed program, whatever
/// follows them, are read as that program, and what follows is left over.
pub proof fn lemma_program_round_trip(program: ProgramView, rest: Seq<u8>)
    requires
        program.wf(),
    ensures
        decode_program(encode_program(program) + rest) == Ok::<(ProgramView, Seq<u8>), DecodeError>(
            (program, rest),
        ),
{
    let after_procs = encode_nodes(program.body) + rest;
    let after_header = encode_procedure_map(program.procedures) + after_procs;
    assert(encode_program(program) + rest =~= encode_header(crate::format::PROGRAM_KIND)
        + after_header);
    lemma_header_round_trip(crate::format::PROGRAM_KIND, after_header);
    lemma_procedure_map_round_trip(program.procedures, after_procs);
    lemma_nodes_round_trip(program.body, rest);
}

/// Decoding undoes encoding: the bytes of a well-formed module, whatever
/// follows them, are read as that module, and what follows is left over.
pub proof fn lemma_module_round_trip(module: ModuleView, rest: Seq<u8>)
    requires
        module.wf(),
    ensures
        decode_module(encode_module(module) + rest) == Ok::<(ModuleView, Seq<u8>), DecodeError>(
            (module, rest),
        ),
{
    let after_header = encode_procedure_map(module.procedures) + rest;
    assert(encode_module(module) + rest =~= encode_header(crate::format::MODULE_KIND)
        + after_header);
    lemma_header_round_trip(crate::format::MODULE_KIND, after_header);
    lemma_procedure_map_round_trip(module.procedures, rest);
}

} // verus!
