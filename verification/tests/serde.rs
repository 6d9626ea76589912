use assembly::{
    parse_module, parse_program, AdviceInjectorNode, DecodeError, Felt, Instruction, ModuleAst,
    Node, ProcMap, ProcedureAst, ProgramAst,
};

fn program_bytes(source: &str) -> Vec<u8> {
    parse_program(source).unwrap().to_bytes()
}

fn round_trip(program: &ProgramAst) {
    let bytes = program.to_bytes();
    let mut source = bytes.as_slice();
    let read = ProgramAst::from_bytes(&mut source).unwrap();
    assert_eq!(&read, program);
    assert!(source.is_empty());
}

// THE FORMAT
// ================================================================================================

#[test]
fn bytes_of_a_small_program() {
    let expected: Vec<u8> = vec![
        1, 0, // version, kind
        0, 0, 0, 0, 0, 0, 0, 0, // no procedures
        2, 0, 0, 0, 0, 0, 0, 0, // two nodes
        105, 1, 0, 0, 0, 0, 0, 0, 0, 0x34, 0xc2, 0xab, 0, 0, 0, 0, 0, // push.0xabc234
        2,    // assertz
    ];
    assert_eq!(program_bytes("begin push.0xabc234 assertz end"), expected);
}

#[test]
fn bytes_of_a_module() {
    let module = parse_module("export.ab.258 dup.1 end").unwrap();
    let expected: Vec<u8> = vec![
        1, 1, // version, kind
        1, 0, 0, 0, 0, 0, 0, 0, // one procedure
        2, 0, 0, 0, 0, 0, 0, 0, 97, 98, // its name
        1,  // exported
        2, 1, 0, 0, // locals
        0, 0, // index
        1, 0, 0, 0, 0, 0, 0, 0, // one node
        36, // dup.1
    ];
    assert_eq!(module.to_bytes(), expected);
}

#[test]
fn bytes_of_control_flow() {
    let bytes = program_bytes("begin if.true add else sub end repeat.258 while.true mul end end end");
    let body: Vec<u8> = vec![
        2, 0, 0, 0, 0, 0, 0, 0, // two nodes
        253, // if
        1, 0, 0, 0, 0, 0, 0, 0, 3, // add
        1, 0, 0, 0, 0, 0, 0, 0, 4, // sub
        254, 2, 1, 0, 0, // repeat.258
        1, 0, 0, 0, 0, 0, 0, 0, // one node
        255, // while
        1, 0, 0, 0, 0, 0, 0, 0, 5, // mul
    ];
    assert_eq!(&bytes[10..], body.as_slice());
}

#[test]
fn bytes_of_instructions_with_immediates() {
    let digest = [7u8; 24];
    let program = ProgramAst {
        procedures: ProcMap::new(),
        body: vec![
            Node::Instruction(Instruction::LocLoad(Felt::new(258))),
            Node::Instruction(Instruction::LocStore(Felt::new(1))),
            Node::Instruction(Instruction::AdvInject(AdviceInjectorNode::PushMapVal)),
            Node::Instruction(Instruction::AdvInject(AdviceInjectorNode::InsertHdword {
                domain: 9,
            })),
            Node::Instruction(Instruction::ExecLocal(258)),
            Node::Instruction(Instruction::CallLocal(3)),
            Node::Instruction(Instruction::ExecImported(digest)),
            Node::Instruction(Instruction::CallImported(digest)),
        ],
    };
    let mut expected: Vec<u8> = vec![1, 0, 0, 0, 0, 0, 0, 0, 0, 0, 8, 0, 0, 0, 0, 0, 0, 0];
    expected.extend([106, 2, 1, 0, 0, 0, 0, 0, 0]);
    expected.extend([107, 1, 0, 0, 0, 0, 0, 0, 0]);
    expected.extend([108, 3]);
    expected.extend([108, 6, 9]);
    expected.extend([109, 2, 1]);
    expected.extend([111, 3, 0]);
    expected.push(110);
    expected.extend(digest);
    expected.push(112);
    expected.extend(digest);
    assert_eq!(program.to_bytes(), expected);
    round_trip(&program);
}

#[test]
fn every_instruction_round_trips() {
    let mut source = String::from("use.lib proc.p add end begin ");
    for mnemonic in [
        "assert", "assert_eq", "assertz", "add", "sub", "mul", "div", "neg", "inv", "not", "and",
        "or", "xor", "eq", "neq", "lt", "lte", "gt", "gte", "u32checked_add", "u32wrapping_add",
        "u32overflowing_add", "u32checked_sub", "u32wrapping_sub", "u32overflowing_sub",
        "u32checked_mul", "u32wrapping_mul", "u32overflowing_mul", "drop", "dropw", "padw",
        "cswap", "cswapw", "cdrop", "cdropw", "adv.push_u64div", "adv.push_ext2intt",
        "adv.push_smtget", "adv.push_mapval", "adv.push_mtnode", "adv.insert_mem",
        "adv.insert_hdword", "adv.insert_hdword.255", "push.0", "push.1.2.3",
        "push.18446744069414584320", "loc_load.2", "loc_store.3", "exec.p", "call.p",
        "exec.lib::f", "call.lib::g",
    ] {
        source.push_str(mnemonic);
        source.push(' ');
    }
    for (mnemonic, lo, hi) in [
        ("dup", 0, 15),
        ("dupw", 0, 3),
        ("swap", 1, 15),
        ("swapw", 1, 3),
        ("movup", 2, 15),
        ("movdn", 2, 15),
        ("movupw", 2, 3),
        ("movdnw", 2, 3),
    ] {
        for depth in lo..=hi {
            source.push_str(&format!("{}.{} ", mnemonic, depth));
        }
    }
    source.push_str("end");
    let program = parse_program(&source).unwrap();
    assert_eq!(program.body.len(), 52 + 70);
    round_trip(&program);
}

#[test]
fn nested_control_flow_round_trips() {
    let source = "begin repeat.3 push.1 if.true and else padw repeat.2 while.true drop end end end \
                  if.true end end end";
    let program = parse_program(source).unwrap();
    round_trip(&program);
    let deep = format!("begin {} add {} end", "while.true ".repeat(40), "end ".repeat(40));
    round_trip(&parse_program(&deep).unwrap());
}

#[test]
fn empty_program_parts_round_trip() {
    round_trip(&ProgramAst { procedures: ProcMap::new(), body: Vec::new() });
    round_trip(&parse_program("proc.a end proc.b end begin end").unwrap());
    let module = ModuleAst { procedures: ProcMap::new() };
    let bytes = module.to_bytes();
    assert_eq!(bytes, vec![1, 1, 0, 0, 0, 0, 0, 0, 0, 0]);
    assert_eq!(ModuleAst::from_bytes(&mut bytes.as_slice()).unwrap(), module);
}

#[test]
fn reader_leaves_what_follows_the_program() {
    let mut bytes = program_bytes("begin add end");
    bytes.extend([9, 8, 7]);
    let mut source = bytes.as_slice();
    assert!(ProgramAst::from_bytes(&mut source).is_ok());
    assert_eq!(source, &[9, 8, 7]);
}

// DETERMINISM
// ================================================================================================

fn procedure(name: &str, index: u16) -> ProcedureAst {
    ProcedureAst {
        name: name.as_bytes().to_vec(),
        is_export: false,
        num_locals: 0,
        index,
        body: vec![Node::Instruction(Instruction::PushConstants(vec![Felt::new(index as u64)]))],
    }
}

#[test]
fn order_of_insertion_does_not_show_in_the_bytes() {
    let names = ["delta", "alpha", "charlie", "bravo", "alphabet", "a"];
    let orders: [[usize; 6]; 4] =
        [[0, 1, 2, 3, 4, 5], [5, 4, 3, 2, 1, 0], [2, 0, 5, 1, 4, 3], [1, 3, 5, 0, 2, 4]];
    let mut all_bytes: Vec<Vec<u8>> = Vec::new();
    for order in orders {
        let mut procedures = ProcMap::new();
        for k in order {
            assert!(!procedures.insert(procedure(names[k], k as u16)));
        }
        let held: Vec<&[u8]> =
            procedures.procedures().iter().map(|p| p.name.as_slice()).collect();
        let sorted: Vec<&[u8]> = vec![b"a", b"alpha", b"alphabet", b"bravo", b"charlie", b"delta"];
        assert_eq!(held, sorted);
        let program = ProgramAst { procedures, body: vec![Node::Instruction(Instruction::Add)] };
        all_bytes.push(program.to_bytes());
    }
    assert!(all_bytes.iter().all(|bytes| bytes == &all_bytes[0]));
}

#[test]
fn same_program_gives_the_same_bytes_twice() {
    let source = "proc.z add end proc.a mul end begin exec.z exec.a end";
    assert_eq!(program_bytes(source), program_bytes(source));
    let program = parse_program(source).unwrap();
    assert_eq!(program.to_bytes(), program.to_bytes());
    let names: Vec<&[u8]> = program.procedures.procedures().iter().map(|p| p.name.as_slice()).collect();
    let sorted: Vec<&[u8]> = vec![b"a", b"z"];
    assert_eq!(names, sorted);
}

// ERRORS OF THE DECODER
// ================================================================================================

#[test]
fn truncated_stream_is_rejected() {
    let bytes = program_bytes(
        "proc.f.2 loc_load.1 end begin push.1.2 if.true exec.f else adv.insert_hdword.3 end end",
    );
    for cut in 0..bytes.len() {
        assert_eq!(
            ProgramAst::from_bytes(&mut &bytes[..cut]),
            Err(DecodeError::UnexpectedEnd),
            "cut at {}",
            cut
        );
    }
    assert!(ProgramAst::from_bytes(&mut bytes.as_slice()).is_ok());
}

#[test]
fn length_past_the_end_is_rejected() {
    let mut bytes = program_bytes("begin add end");
    bytes[10] = 2;
    assert_eq!(ProgramAst::from_bytes(&mut bytes.as_slice()), Err(DecodeError::UnexpectedEnd));
    bytes[10..18].copy_from_slice(&u64::MAX.to_le_bytes());
    assert_eq!(ProgramAst::from_bytes(&mut bytes.as_slice()), Err(DecodeError::UnexpectedEnd));
    let mut bytes = parse_module("proc.f end").unwrap().to_bytes();
    bytes[10] = 200;
    assert_eq!(ModuleAst::from_bytes(&mut bytes.as_slice()), Err(DecodeError::UnexpectedEnd));
}

#[test]
fn unknown_tag_is_rejected() {
    let mut bytes = program_bytes("begin add end");
    let last = bytes.len() - 1;
    for tag in 113..=252u8 {
        bytes[last] = tag;
        assert_eq!(
            ProgramAst::from_bytes(&mut bytes.as_slice()),
            Err(DecodeError::UnknownTag { tag })
        );
    }
    bytes[last] = 112;
    assert_eq!(ProgramAst::from_bytes(&mut bytes.as_slice()), Err(DecodeError::UnexpectedEnd));
    let mut bytes = program_bytes("begin adv.insert_mem end");
    let last = bytes.len() - 1;
    bytes[last] = 7;
    assert_eq!(
        ProgramAst::from_bytes(&mut bytes.as_slice()),
        Err(DecodeError::UnknownTag { tag: 7 })
    );
}

#[test]
fn header_is_checked() {
    let bytes = program_bytes("begin add end");
    let mut other_version = bytes.clone();
    other_version[0] = 2;
    assert_eq!(
        ProgramAst::from_bytes(&mut other_version.as_slice()),
        Err(DecodeError::UnsupportedVersion { version: 2 })
    );
    assert_eq!(ModuleAst::from_bytes(&mut bytes.as_slice()), Err(DecodeError::InvalidValue));
    let module = parse_module("proc.f end").unwrap().to_bytes();
    assert_eq!(ProgramAst::from_bytes(&mut module.as_slice()), Err(DecodeError::InvalidValue));
}

#[test]
fn values_outside_their_domain_are_rejected() {
    let mut bytes = program_bytes("begin push.5 end");
    let last = bytes.len();
    bytes[last - 8..].copy_from_slice(&0xFFFF_FFFF_0000_0001u64.to_le_bytes());
    assert_eq!(ProgramAst::from_bytes(&mut bytes.as_slice()), Err(DecodeError::InvalidValue));
    bytes[last - 8..].copy_from_slice(&0xFFFF_FFFF_0000_0000u64.to_le_bytes());
    assert!(ProgramAst::from_bytes(&mut bytes.as_slice()).is_ok());

    let mut bytes = parse_module("export.f end").unwrap().to_bytes();
    assert_eq!(bytes[19], 1);
    bytes[19] = 2;
    assert_eq!(ModuleAst::from_bytes(&mut bytes.as_slice()), Err(DecodeError::InvalidValue));
}

#[test]
fn procedures_out_of_order_are_rejected() {
    let bytes = parse_module("proc.a end proc.b end").unwrap().to_bytes();
    assert_eq!(bytes[18], b'a');
    let second = bytes.iter().rposition(|b| *b == b'b').unwrap();
    let mut swapped = bytes.clone();
    swapped[18] = b'b';
    swapped[second] = b'a';
    assert_eq!(ModuleAst::from_bytes(&mut swapped.as_slice()), Err(DecodeError::InvalidValue));
    let mut twice = bytes.clone();
    twice[second] = b'a';
    assert_eq!(ModuleAst::from_bytes(&mut twice.as_slice()), Err(DecodeError::InvalidValue));
    assert!(ModuleAst::from_bytes(&mut bytes.as_slice()).is_ok());
}
