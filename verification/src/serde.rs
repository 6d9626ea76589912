use crate::errors::DecodeError;
use crate::felt::Felt;
use crate::format::{
    decode_felts, decode_header, decode_injector, decode_instruction, decode_items, decode_module,
    decode_node, decode_nodes, decode_procedure, decode_procedure_map, decode_procedures,
    decode_program, encode_felts, encode_header, encode_injector, encode_instruction,
    encode_items, encode_module, encode_node, encode_nodes, encode_procedure,
    encode_procedure_map, encode_procedures, encode_program, plain_from_tag, procedures_wf,
    tag_of, FORMAT_VERSION, IF_ELSE_TAG, MODULE_KIND, PROGRAM_KIND, REPEAT_TAG, WHILE_TAG,
};
use crate::nodes::{
    nodes_view, nodes_wf, AdviceInjectorNode, Instruction, Node, NodeView, ProcView, ProcedureAst,
};
use crate::procs::{procedures_view, sorted_by_name, ProcMap};
use crate::program::{ModuleAst, ModuleView, ProgramAst, ProgramView};
use crate::roundtrip::{lemma_module_round_trip, lemma_program_round_trip};
use crate::text::{comes_before, lemma_precedes_transitive, precedes};
use crate::wire::{
    encode_felt, read_digest, read_felt, read_flag, read_string, read_u16, read_u32,
    read_u64, read_u8, write_bytes, write_felt, write_flag, write_len, write_string, write_u16,
    write_u32, write_u8,
};
use vstd::bytes::*;
use vstd::prelude::*;

verus! {

// WRITING
// ================================================================================================

/// Field elements written one behind the other grow at the end.
pub proof fn lemma_felts_push(constants: Seq<Felt>, last: Felt)
    ensures
        encode_felts(constants.push(last)) == encode_felts(constants) + encode_felt(last),
    decreases constants.len(),
{
    let all = constants.push(last);
    if constants.len() == 0 {
        assert(all.drop_first() =~= Seq::<Felt>::empty());
        assert(encode_felts(all.drop_first()) =~= Seq::<u8>::empty());
        assert(encode_felts(all) =~= encode_felts(constants) + encode_felt(last));
    } else {
        assert(all.drop_first() =~= constants.drop_first().push(last));
        lemma_felts_push(constants.drop_first(), last);
        assert(encode_felts(all) =~= encode_felts(constants) + encode_felt(last));
    }
}

/// Nodes written one behind the other grow at the end.
pub proof fn lemma_items_push(nodes: Seq<NodeView>, last: NodeView)
    ensures
        encode_items(nodes.push(last)) == encode_items(nodes) + encode_node(last),
    decreases nodes.len(),
{
    let all = nodes.push(last);
    if nodes.len() == 0 {
        assert(all.drop_first() =~= Seq::<NodeView>::empty());
        assert(encode_items(all.drop_first()) =~= Seq::<u8>::empty());
        assert(encode_items(all) =~= encode_items(nodes) + encode_node(last));
    } else {
        assert(all.drop_first() =~= nodes.drop_first().push(last));
        lemma_items_push(nodes.drop_first(), last);
        assert(encode_items(all) =~= encode_items(nodes) + encode_node(last));
    }
}

/// Procedures written one behind the other grow at the end.
pub proof fn lemma_procedures_push(procs: Seq<ProcView>, last: ProcView)
    ensures
        encode_procedures(procs.push(last)) == encode_procedures(procs) + encode_procedure(last),
    decreases procs.len(),
{
    let all = procs.push(last);
    if procs.len() == 0 {
        assert(all.drop_first() =~= Seq::<ProcView>::empty());
        assert(encode_procedures(all.drop_first()) =~= Seq::<u8>::empty());
        assert(encode_procedures(all) =~= encode_procedures(procs) + encode_procedure(last));
    } else {
        assert(all.drop_first() =~= procs.drop_first().push(last));
        lemma_procedures_push(procs.drop_first(), last);
        assert(encode_procedures(all) =~= encode_procedures(procs) + encode_procedure(last));
    }
}

fn write_injector(out: &mut Vec<u8>, injector: &AdviceInjectorNode)
    ensures
        final(out)@ == old(out)@ + encode_injector(*injector),
{
    match injector {
        AdviceInjectorNode::PushU64div => write_u8(out, 0),
        AdviceInjectorNode::PushExt2intt => write_u8(out, 1),
        AdviceInjectorNode::PushSmtGet => write_u8(out, 2),
        AdviceInjectorNode::PushMapVal => write_u8(out, 3),
        AdviceInjectorNode::PushMtNode => write_u8(out, 4),
        AdviceInjectorNode::InsertMem => write_u8(out, 5),
        AdviceInjectorNode::InsertHdword { domain } => {
            write_u8(out, 6);
            write_u8(out, *domain);
            assert(out@ =~= old(out)@ + seq![6u8, *domain]);
        },
    }
}

fn write_felts(out: &mut Vec<u8>, constants: &Vec<Felt>)
    ensures
        final(out)@ == old(out)@ + encode_felts(constants@),
        forall|i: int| 0 <= i < constants@.len() ==> (#[trigger] constants@[i]).is_canonical(),
{
    let mut i: usize = 0;
    assert(constants@.take(0) =~= Seq::<Felt>::empty());
    assert(out@ =~= old(out)@ + encode_felts(constants@.take(0)));
    while i < constants.len()
        invariant
            i <= constants@.len(),
            out@ == old(out)@ + encode_felts(constants@.take(i as int)),
            forall|j: int| 0 <= j < i ==> (#[trigger] constants@[j]).is_canonical(),
        decreases constants@.len() - i,
    {
        write_felt(out, &constants[i]);
        proof {
            lemma_felts_push(constants@.take(i as int), constants@[i as int]);
            assert(constants@.take(i + 1) =~= constants@.take(i as int).push(constants@[i as int]));
            assert(out@ =~= old(out)@ + encode_felts(constants@.take(i + 1)));
        }
        i += 1;
    }
    assert(constants@.take(constants@.len() as int) =~= constants@);
}

/// Appends an instruction.
pub fn write_instruction(out: &mut Vec<u8>, instruction: &Instruction)
    ensures
        final(out)@ == old(out)@ + encode_instruction(instruction@),
        instruction@.wf(),
{
    write_u8(out, tag_of(instruction));
    let ghost tagged = out@;
    match instruction {
        Instruction::PushConstants(constants) => {
            write_len(out, constants.len());
            write_felts(out, constants);
        },
        Instruction::LocLoad(index) => {
            write_felt(out, index);
        },
        Instruction::LocStore(index) => {
            write_felt(out, index);
        },
        Instruction::AdvInject(injector) => {
            write_injector(out, injector);
        },
        Instruction::ExecLocal(index) => {
            write_u16(out, *index);
        },
        Instruction::ExecImported(digest) => {
            write_bytes(out, digest.as_slice());
        },
        Instruction::CallLocal(index) => {
            write_u16(out, *index);
        },
        Instruction::CallImported(digest) => {
            write_bytes(out, digest.as_slice());
        },
        _ => {},
    }
    assert(out@ =~= old(out)@ + encode_instruction(instruction@));
}

/// Appends a node with all that it holds.
pub fn write_node(out: &mut Vec<u8>, node: &Node)
    ensures
        final(out)@ == old(out)@ + encode_node(node@),
        node@.wf(),
    decreases node, 0int,
{
    match node {
        Node::Instruction(instruction) => {
            write_instruction(out, instruction);
        },
        Node::IfElse(then_body, else_body) => {
            write_u8(out, IF_ELSE_TAG);
            write_nodes(out, then_body);
            write_nodes(out, else_body);
            assert(out@ =~= old(out)@ + encode_node(node@));
        },
        Node::Repeat(count, body) => {
            write_u8(out, REPEAT_TAG);
            write_u32(out, *count);
            write_nodes(out, body);
            assert(out@ =~= old(out)@ + encode_node(node@));
        },
        Node::While(body) => {
            write_u8(out, WHILE_TAG);
            write_nodes(out, body);
            assert(out@ =~= old(out)@ + encode_node(node@));
        },
    }
}

/// Appends a body: the number of its nodes, then the nodes.
pub fn write_nodes(out: &mut Vec<u8>, nodes: &Vec<Node>)
    ensures
        final(out)@ == old(out)@ + encode_nodes(nodes_view(nodes@)),
        nodes_wf(nodes_view(nodes@)),
    decreases nodes, 1int,
{
    write_len(out, nodes.len());
    let ghost counted = out@;
    let ghost views = nodes_view(nodes@);
    let mut i: usize = 0;
    assert(views.take(0) =~= Seq::<NodeView>::empty());
    assert(out@ =~= counted + encode_items(views.take(0)));
    while i < nodes.len()
        invariant
            i <= nodes@.len(),
            views == nodes_view(nodes@),
            out@ == counted + encode_items(views.take(i as int)),
            forall|j: int| 0 <= j < i ==> (#[trigger] views[j]).wf(),
        decreases nodes@.len() - i,
    {
        write_node(out, &nodes[i]);
        proof {
            lemma_items_push(views.take(i as int), views[i as int]);
            assert(views.take(i + 1) =~= views.take(i as int).push(views[i as int]));
            assert(out@ =~= counted + encode_items(views.take(i + 1)));
        }
        i += 1;
    }
    assert(views.take(views.len() as int) =~= views);
    assert(out@ =~= old(out)@ + encode_nodes(views));
}

/// Appends a procedure.
pub fn write_procedure(out: &mut Vec<u8>, procedure: &ProcedureAst)
    ensures
        final(out)@ == old(out)@ + encode_procedure(procedure@),
        procedure@.wf(),
{
    write_string(out, procedure.name.as_slice());
    write_flag(out, procedure.is_export);
    write_u32(out, procedure.num_locals);
    write_u16(out, procedure.index);
    write_nodes(out, &procedure.body);
    assert(out@ =~= old(out)@ + encode_procedure(procedure@));
}

/// Appends the procedures of a module or program.
pub fn write_procedure_map(out: &mut Vec<u8>, procedures: &ProcMap)
    ensures
        final(out)@ == old(out)@ + encode_procedure_map(procedures@),
        procedures_wf(procedures@),
{
    let procs = procedures.procedures();
    write_len(out, procs.len());
    let ghost counted = out@;
    let ghost views = procedures@;
    let mut i: usize = 0;
    assert(views.take(0) =~= Seq::<ProcView>::empty());
    assert(out@ =~= counted + encode_procedures(views.take(0)));
    while i < procs.len()
        invariant
            i <= procs@.len(),
            views == procedures_view(procs@),
            out@ == counted + encode_procedures(views.take(i as int)),
            forall|j: int| 0 <= j < i ==> (#[trigger] views[j]).wf(),
        decreases procs@.len() - i,
    {
        write_procedure(out, &procs[i]);
        proof {
            lemma_procedures_push(views.take(i as int), views[i as int]);
            assert(views.take(i + 1) =~= views.take(i as int).push(views[i as int]));
            assert(out@ =~= counted + encode_procedures(views.take(i + 1)));
        }
        i += 1;
    }
    assert(views.take(views.len() as int) =~= views);
    assert(out@ =~= old(out)@ + encode_procedure_map(views));
}

// READING
// ================================================================================================

/// Whether a reader gave a value whose model is what the bytes say, and left
/// in `after` the bytes behind what it read.
pub open spec fn reads_view<T: View>(
    r: Result<T, DecodeError>,
    after: Seq<u8>,
    spec: Result<(T::V, Seq<u8>), DecodeError>,
) -> bool {
    match spec {
        Ok((value, rest)) => r is Ok && r->Ok_0@ == value && after == rest,
        Err(e) => r is Err && r->Err_0 == e,
    }
}

/// Whether a reader gave nodes whose models are what the bytes say, and left
/// in `after` the bytes behind what it read.
pub open spec fn reads_nodes(
    r: Result<Vec<Node>, DecodeError>,
    after: Seq<u8>,
    spec: Result<(Seq<NodeView>, Seq<u8>), DecodeError>,
) -> bool {
    match spec {
        Ok((nodes, rest)) => r is Ok && nodes_view(r->Ok_0@) == nodes && after == rest,
        Err(e) => r is Err && r->Err_0 == e,
    }
}

fn read_injector(source: &mut &[u8]) -> (r: Result<AdviceInjectorNode, DecodeError>)
    ensures
        crate::wire::reads(r, final(source)@, decode_injector(old(source)@)),
{
    let kind = read_u8(source)?;
    match kind {
        0 => Ok(AdviceInjectorNode::PushU64div),
        1 => Ok(AdviceInjectorNode::PushExt2intt),
        2 => Ok(AdviceInjectorNode::PushSmtGet),
        3 => Ok(AdviceInjectorNode::PushMapVal),
        4 => Ok(AdviceInjectorNode::PushMtNode),
        5 => Ok(AdviceInjectorNode::InsertMem),
        6 => {
            let domain = read_u8(source)?;
            Ok(AdviceInjectorNode::InsertHdword { domain })
        },
        _ => Err(DecodeError::UnknownTag { tag: kind }),
    }
}

fn read_felts(source: &mut &[u8], count: u64) -> (r: Result<Vec<Felt>, DecodeError>)
    ensures
        match decode_felts(old(source)@, count as nat, Seq::empty()) {
            Ok((constants, rest)) => r is Ok && r->Ok_0@ == constants && final(source)@ == rest,
            Err(e) => r is Err && r->Err_0 == e,
        },
        r is Ok ==> final(source)@.len() <= old(source)@.len(),
{
    let ghost start = source@;
    let mut constants: Vec<Felt> = Vec::new();
    let mut k: u64 = 0;
    while k < count
        invariant
            k <= count,
            start == old(source)@,
            source@.len() <= start.len(),
            decode_felts(start, count as nat, Seq::empty()) == decode_felts(
                source@,
                (count - k) as nat,
                constants@,
            ),
        decreases count - k,
    {
        match read_felt(source) {
            Ok(element) => {
                constants.push(element);
            },
            Err(e) => {
                return Err(e);
            },
        }
        k += 1;
    }
    Ok(constants)
}

/// Reads an instruction.
pub fn read_instruction(source: &mut &[u8]) -> (r: Result<Instruction, DecodeError>)
    ensures
        reads_view(r, final(source)@, decode_instruction(old(source)@)),
        r is Ok ==> final(source)@.len() < old(source)@.len(),
{
    let tag = read_u8(source)?;
    match tag {
        105 => {
            let count = read_u64(source)?;
            let constants = read_felts(source, count)?;
            Ok(Instruction::PushConstants(constants))
        },
        106 => {
            let index = read_felt(source)?;
            Ok(Instruction::LocLoad(index))
        },
        107 => {
            let index = read_felt(source)?;
            Ok(Instruction::LocStore(index))
        },
        108 => {
            let injector = read_injector(source)?;
            Ok(Instruction::AdvInject(injector))
        },
        109 => {
            let index = read_u16(source)?;
            Ok(Instruction::ExecLocal(index))
        },
        110 => {
            let digest = read_digest(source)?;
            Ok(Instruction::ExecImported(digest))
        },
        111 => {
            let index = read_u16(source)?;
            Ok(Instruction::CallLocal(index))
        },
        112 => {
            let digest = read_digest(source)?;
            Ok(Instruction::CallImported(digest))
        },
        _ => match plain_from_tag(tag) {
            Some(instruction) => Ok(instruction),
            None => Err(DecodeError::UnknownTag { tag }),
        },
    }
}

/// Reads a node with all that it holds.
pub fn read_node(source: &mut &[u8]) -> (r: Result<Node, DecodeError>)
    ensures
        reads_view(r, final(source)@, decode_node(old(source)@)),
        r is Ok ==> final(source)@.len() < old(source)@.len(),
    decreases old(source)@.len(), 0int,
{
    if source.len() == 0 {
        return Err(DecodeError::UnexpectedEnd);
    }
    let tag = source[0];
    if tag == IF_ELSE_TAG {
        let _ = read_u8(source)?;
        let then_body = read_nodes(source)?;
        let else_body = read_nodes(source)?;
        Ok(Node::IfElse(then_body, else_body))
    } else if tag == REPEAT_TAG {
        let _ = read_u8(source)?;
        let count = read_u32(source)?;
        let body = read_nodes(source)?;
        Ok(Node::Repeat(count, body))
    } else if tag == WHILE_TAG {
        let _ = read_u8(source)?;
        let body = read_nodes(source)?;
        Ok(Node::While(body))
    } else {
        let instruction = read_instruction(source)?;
        Ok(Node::Instruction(instruction))
    }
}

/// Reads a body: the number of its nodes, then the nodes.
pub fn read_nodes(source: &mut &[u8]) -> (r: Result<Vec<Node>, DecodeError>)
    ensures
        reads_nodes(r, final(source)@, decode_nodes(old(source)@)),
        r is Ok ==> final(source)@.len() < old(source)@.len(),
    decreases old(source)@.len(), 2int,
{
    let ghost initial = source@;
    let count = read_u64(source)?;
    let ghost start = source@;
    let mut nodes: Vec<Node> = Vec::new();
    let mut k: u64 = 0;
    assert(nodes_view(nodes@) =~= Seq::<NodeView>::empty());
    while k < count
        invariant
            k <= count,
            source@.len() <= start.len(),
            start.len() < initial.len(),
            initial == old(source)@,
            decode_nodes(initial) == decode_items(start, count as nat, Seq::empty()),
            decode_items(start, count as nat, Seq::empty()) == decode_items(
                source@,
                (count - k) as nat,
                nodes_view(nodes@),
            ),
        decreases count - k,
    {
        match read_node(source) {
            Ok(node) => {
                let ghost before = nodes_view(nodes@);
                nodes.push(node);
                assert(nodes_view(nodes@) =~= before.push(node@));
            },
            Err(e) => {
                return Err(e);
            },
        }
        k += 1;
    }
    Ok(nodes)
}

/// Reads a procedure.
pub fn read_procedure(source: &mut &[u8]) -> (r: Result<ProcedureAst, DecodeError>)
    ensures
        reads_view(r, final(source)@, decode_procedure(old(source)@)),
{
    let name = read_string(source)?;
    let is_export = read_flag(source)?;
    let num_locals = read_u32(source)?;
    let index = read_u16(source)?;
    let body = read_nodes(source)?;
    Ok(ProcedureAst { name, is_export, num_locals, index, body })
}

/// Reads the procedures of a module or program.
pub fn read_procedure_map(source: &mut &[u8]) -> (r: Result<ProcMap, DecodeError>)
    ensures
        reads_view(r, final(source)@, decode_procedure_map(old(source)@)),
{
    let count = read_u64(source)?;
    let ghost start = source@;
    let mut procs: Vec<ProcedureAst> = Vec::new();
    let mut k: u64 = 0;
    assert(procedures_view(procs@) =~= Seq::<ProcView>::empty());
    while k < count
        invariant
            k <= count,
            sorted_by_name(procedures_view(procs@)),
            decode_procedure_map(old(source)@) == decode_procedures(
                start,
                count as nat,
                Seq::empty(),
            ),
            decode_procedures(start, count as nat, Seq::empty()) == decode_procedures(
                source@,
                (count - k) as nat,
                procedures_view(procs@),
            ),
        decreases count - k,
    {
        match read_procedure(source) {
            Ok(procedure) => {
                let ghost before = procedures_view(procs@);
                let held: usize = procs.len();
                if held > 0 && !comes_before(
                    procs[held - 1].name.as_slice(),
                    procedure.name.as_slice(),
                ) {
                    assert(before.last() == procs@[held - 1]@);
                    return Err(DecodeError::InvalidValue);
                }
                assert(held > 0 ==> before.last() == procs@[held - 1]@);
                procs.push(procedure);
                let ghost after = procedures_view(procs@);
                assert(after =~= before.push(procedure@));
                assert forall|i: int, j: int| 0 <= i < j < after.len() implies precedes(
                    #[trigger] after[i].name,
                    #[trigger] after[j].name,
                ) by {
                    if j == held {
                        if i < held - 1 {
                            assert(precedes(before[i].name, before[held - 1].name));
                            lemma_precedes_transitive(
                                before[i].name,
                                before[held - 1].name,
                                procedure@.name,
                            );
                        }
                    } else {
                        assert(precedes(before[i].name, before[j].name));
                    }
                }
            },
            Err(e) => {
                return Err(e);
            },
        }
        k += 1;
    }
    Ok(ProcMap::from_sorted(procs))
}

fn read_header(source: &mut &[u8], kind: u8) -> (r: Result<(), DecodeError>)
    ensures
        crate::wire::reads(r, final(source)@, decode_header(old(source)@, kind)),
{
    let version = read_u8(source)?;
    if version != FORMAT_VERSION {
        return Err(DecodeError::UnsupportedVersion { version });
    }
    let found = read_u8(source)?;
    if found != kind {
        return Err(DecodeError::InvalidValue);
    }
    Ok(())
}

fn write_header(out: &mut Vec<u8>, kind: u8)
    ensures
        final(out)@ == old(out)@ + encode_header(kind),
{
    write_u8(out, FORMAT_VERSION);
    write_u8(out, kind);
    assert(out@ =~= old(out)@ + encode_header(kind));
}

impl ProgramAst {
    /// The bytes of the program.
    pub fn to_bytes(&self) -> (bytes: Vec<u8>)
        ensures
            bytes@ == encode_program(self@),
            self@.wf(),
            decode_program(bytes@) == Ok::<(ProgramView, Seq<u8>), DecodeError>(
                (self@, Seq::empty()),
            ),
    {
        let mut out: Vec<u8> = Vec::new();
        write_header(&mut out, PROGRAM_KIND);
        write_procedure_map(&mut out, &self.procedures);
        write_nodes(&mut out, &self.body);
        assert(out@ =~= encode_program(self@));
        proof {
            lemma_program_round_trip(self@, Seq::empty());
            assert(encode_program(self@) + Seq::<u8>::empty() =~= encode_program(self@));
        }
        out
    }

    /// Reads a program from the front of `source` and leaves in `source` the
    /// bytes behind it.
    pub fn from_bytes(source: &mut &[u8]) -> (r: Result<ProgramAst, DecodeError>)
        ensures
            reads_view(r, final(source)@, decode_program(old(source)@)),
    {
        read_header(source, PROGRAM_KIND)?;
        let procedures = read_procedure_map(source)?;
        let body = read_nodes(source)?;
        Ok(ProgramAst { procedures, body })
    }
}

impl ModuleAst {
    /// The bytes of the module.
    pub fn to_bytes(&self) -> (bytes: Vec<u8>)
        ensures
            bytes@ == encode_module(self@),
            self@.wf(),
            decode_module(bytes@) == Ok::<(ModuleView, Seq<u8>), DecodeError>(
                (self@, Seq::empty()),
            ),
    {
        let mut out: Vec<u8> = Vec::new();
        write_header(&mut out, MODULE_KIND);
        write_procedure_map(&mut out, &self.procedures);
        assert(out@ =~= encode_module(self@));
        proof {
            lemma_module_round_trip(self@, Seq::empty());
            assert(encode_module(self@) + Seq::<u8>::empty() =~= encode_module(self@));
        }
        out
    }

    /// Reads a module from the front of `source` and leaves in `source` the
    /// bytes behind it.
    pub fn from_bytes(source: &mut &[u8]) -> (r: Result<ModuleAst, DecodeError>)
        ensures
            reads_view(r, final(source)@, decode_module(old(source)@)),
    {
        read_header(source, MODULE_KIND)?;
        let procedures = read_procedure_map(source)?;
        Ok(ModuleAst { procedures })
    }
}

} // verus!
