use assembly::{
    parse_module, parse_program, Felt, Instruction, ModuleAst, Node, ParsingError, ProcMap,
    ProcedureAst, ProgramAst,
};
use miden_core::{Felt as CoreFelt, FieldElement, StarkField};
use winter_crypto::{hashers::Blake3_192, Digest, Hasher};

fn felt(value: CoreFelt) -> Felt {
    Felt::new(value.as_int())
}

fn name(text: &str) -> Vec<u8> {
    text.as_bytes().to_vec()
}

// PARSING
// ================================================================================================

#[test]
fn test_ast_parsing_program_simple() {
    let source = "begin push.0 assertz end";
    let values: Vec<Felt> = vec![felt(CoreFelt::ZERO)];
    let nodes: Vec<Node> = vec![
        Node::Instruction(Instruction::PushConstants(values)),
        Node::Instruction(Instruction::Assertz),
    ];

    assert_program_output(source, ProcMap::new(), nodes);
}

#[test]
fn test_ast_parsing_program_proc() {
    let source = "\
    proc.foo.1 
        loc_load.0
    end
    proc.bar.2 
        padw
    end  
    begin
        exec.foo
        exec.bar
    end";
    let proc_body1: Vec<Node> = vec![Node::Instruction(Instruction::LocLoad(felt(CoreFelt::ZERO)))];
    let mut procedures = ProcMap::new();
    procedures.insert(ProcedureAst {
        name: name("foo"),
        is_export: false,
        num_locals: 1,
        index: 0,
        body: proc_body1,
    });
    let proc_body2: Vec<Node> = vec![Node::Instruction(Instruction::PadW)];
    procedures.insert(ProcedureAst {
        name: name("bar"),
        is_export: false,
        num_locals: 2,
        index: 1,
        body: proc_body2,
    });
    let nodes: Vec<Node> = vec![
        Node::Instruction(Instruction::ExecLocal(0)),
        Node::Instruction(Instruction::ExecLocal(1)),
    ];
    assert_program_output(source, procedures, nodes);
}

#[test]
fn test_ast_parsing_module() {
    let source = "\
    export.foo.1 
        loc_load.0
    end";
    let mut procedures = ProcMap::new();
    let proc_body: Vec<Node> = vec![Node::Instruction(Instruction::LocLoad(felt(CoreFelt::ZERO)))];
    procedures.insert(ProcedureAst {
        name: name("foo"),
        is_export: true,
        num_locals: 1,
        index: 0,
        body: proc_body,
    });
    parse_program(source).expect_err("Program should contain body and no export");
    let module = parse_module(source).unwrap();
    assert_eq!(module.procedures.len(), procedures.len());
    for proc in module.procedures.procedures() {
        assert!(procedures.contains_key(&proc.name));
        assert_eq!(procedures.get(&proc.name).unwrap(), proc);
    }
}

#[test]
fn test_ast_parsing_use() {
    let source = "\
    use.std::abc::foo
    begin
        exec.foo::bar
    end";
    let procedures = ProcMap::new();
    let proc_name_digest =
        Blake3_192::<CoreFelt>::hash(String::from("std::abc::foo::bar").as_bytes());
    let mut proc_name_hash = [0; 24];
    proc_name_hash.copy_from_slice(&proc_name_digest.as_bytes()[..24]);
    let nodes: Vec<Node> = vec![Node::Instruction(Instruction::ExecImported(proc_name_hash))];
    assert_program_output(source, procedures, nodes);
}

// SERIALIZATION AND DESERIALIZATION
// ================================================================================================

#[test]
fn test_ast_program_serde_simple() {
    let source = "begin push.0xabc234 push.0 assertz end";
    let program = parse_program(source).unwrap();
    let program_serialized = program.to_bytes();
    let program_deserialized = ProgramAst::from_bytes(&mut program_serialized.as_slice()).unwrap();

    assert_eq!(program, program_deserialized);
}

#[test]
fn test_ast_program_serde_local_procs() {
    let source = "\
    proc.foo.1 
        loc_load.0
    end
    proc.bar.2 
        padw
    end  
    begin
        exec.foo
        exec.bar
    end";
    let program = parse_program(source).unwrap();
    let program_serialized = program.to_bytes();
    let program_deserialized = ProgramAst::from_bytes(&mut program_serialized.as_slice()).unwrap();

    assert_eq!(program, program_deserialized);
}

#[test]
fn test_ast_program_serde_exported_procs() {
    let source = "\
    export.foo.1 
        loc_load.0
    end
    export.bar.2 
        padw
    end";
    let module = parse_module(source).unwrap();
    let module_serialized = module.to_bytes();
    let module_deserialized = ModuleAst::from_bytes(&mut module_serialized.as_slice()).unwrap();

    assert_eq!(module, module_deserialized);
}

#[test]
fn test_ast_program_serde_control_flow() {
    let source = "\
    begin
        repeat.3
            push.1
            push.0.1
        end 

        if.true
            and
            loc_store.0
        else
            padw
        end
        
        while.true
            push.5.7
            u32checked_add
            loc_store.1
            push.0
        end

        repeat.3
            push.2
            u32overflowing_mul
        end

    end";

    let program = parse_program(source).unwrap();
    let program_serialized = program.to_bytes();
    let program_deserialized = ProgramAst::from_bytes(&mut program_serialized.as_slice()).unwrap();

    assert_eq!(program, program_deserialized);
}

fn assert_program_output(source: &str, procedures: ProcMap, body: Vec<Node>) {
    let program = parse_program(source).unwrap();
    assert_eq!(program.body, body);
    assert_eq!(program.procedures.len(), procedures.len());
    for proc in program.procedures.procedures() {
        assert!(procedures.contains_key(&proc.name));
        assert_eq!(procedures.get(&proc.name).unwrap(), proc);
    }
}

// THE SHAPE OF THE TREE
// ================================================================================================

#[test]
fn control_flow_nests() {
    let source = "begin repeat.3 if.true add else mul while.true neg end end end end";
    let program = parse_program(source).unwrap();
    let expected = vec![Node::Repeat(
        3,
        vec![Node::IfElse(
            vec![Node::Instruction(Instruction::Add)],
            vec![
                Node::Instruction(Instruction::Mul),
                Node::While(vec![Node::Instruction(Instruction::Neg)]),
            ],
        )],
    )];
    assert_eq!(program.body, expected);
    let bytes = program.to_bytes();
    let read = ProgramAst::from_bytes(&mut bytes.as_slice()).unwrap();
    assert_eq!(read, program);
}

#[test]
fn if_without_else_has_an_empty_second_body() {
    let program = parse_program("begin if.true drop end end").unwrap();
    assert_eq!(
        program.body,
        vec![Node::IfElse(vec![Node::Instruction(Instruction::Drop)], vec![])]
    );
}

#[test]
fn empty_bodies_parse_and_round_trip() {
    let program = parse_program("proc.p end begin while.true end end").unwrap();
    assert_eq!(program.body, vec![Node::While(vec![])]);
    assert_eq!(program.procedures.len(), 1);
    assert_eq!(program.procedures.get(b"p").unwrap().num_locals, 0);
    let bytes = program.to_bytes();
    assert_eq!(ProgramAst::from_bytes(&mut bytes.as_slice()).unwrap(), program);
}

#[test]
fn local_call_resolves_to_the_index_of_its_declaration() {
    let program = parse_program("proc.foo.1 padw end begin exec.foo call.foo end").unwrap();
    assert_eq!(program.procedures.get(b"foo").unwrap().index, 0);
    assert_eq!(
        program.body,
        vec![
            Node::Instruction(Instruction::ExecLocal(0)),
            Node::Instruction(Instruction::CallLocal(0)),
        ]
    );
}

#[test]
fn procedure_may_call_those_declared_before_it() {
    let program = parse_program("proc.a add end proc.b exec.a end begin exec.b end").unwrap();
    let b = program.procedures.get(b"b").unwrap();
    assert_eq!(b.index, 1);
    assert_eq!(b.body, vec![Node::Instruction(Instruction::ExecLocal(0))]);
    assert_eq!(
        parse_program("proc.a exec.b end proc.b add end begin exec.a end"),
        Err(ParsingError::UndeclaredProcedure { step: 1 })
    );
    assert_eq!(
        parse_program("proc.a exec.a end begin exec.a end"),
        Err(ParsingError::UndeclaredProcedure { step: 1 })
    );
}

#[test]
fn imported_call_hashes_the_full_name() {
    let program =
        parse_program("use.std::math::u64 use.u256 begin call.u64::add exec.u256::mul end")
            .unwrap();
    let mut first = [0u8; 24];
    first.copy_from_slice(&Blake3_192::<CoreFelt>::hash(b"std::math::u64::add").as_bytes()[..24]);
    let mut second = [0u8; 24];
    second.copy_from_slice(&Blake3_192::<CoreFelt>::hash(b"u256::mul").as_bytes()[..24]);
    assert_ne!(first, second);
    assert_eq!(
        program.body,
        vec![
            Node::Instruction(Instruction::CallImported(first)),
            Node::Instruction(Instruction::ExecImported(second)),
        ]
    );
}

#[test]
fn imported_call_takes_the_first_import_of_the_module() {
    let program = parse_program("use.a::m use.b::m begin exec.m::f end").unwrap();
    let mut digest = [0u8; 24];
    digest.copy_from_slice(&Blake3_192::<CoreFelt>::hash(b"a::m::f").as_bytes()[..24]);
    assert_eq!(program.body, vec![Node::Instruction(Instruction::ExecImported(digest))]);
}

#[test]
fn imported_call_needs_the_import() {
    assert_eq!(
        parse_program("use.std::abc::foo begin exec.oo::bar end"),
        Err(ParsingError::UndeclaredProcedure { step: 2 })
    );
    assert_eq!(
        parse_program("begin exec.foo::bar end"),
        Err(ParsingError::UndeclaredProcedure { step: 1 })
    );
}

#[test]
fn call_target_must_be_one_or_two_labels() {
    for target in ["", "::f", "m::", "m:f", "m::f::g", "m-f", "a b"] {
        let source = format!("use.m begin exec.{} end", target);
        let parsed = parse_program(&source);
        assert!(parsed.is_err(), "{}", target);
    }
    assert_eq!(
        parse_program("use.m begin exec.m::f::g end"),
        Err(ParsingError::InvalidParam { step: 2, param: 1 })
    );
    assert_eq!(parse_program("begin exec end"), Err(ParsingError::MissingParam { step: 1 }));
    assert_eq!(parse_program("begin exec.a.b end"), Err(ParsingError::ExtraParam { step: 1 }));
}

// ERRORS OF THE GRAMMAR
// ================================================================================================

#[test]
fn blocks_must_be_closed() {
    assert_eq!(parse_program("begin add"), Err(ParsingError::UnterminatedBlock { step: 0 }));
    assert_eq!(
        parse_program("begin if.true add end"),
        Err(ParsingError::UnterminatedBlock { step: 0 })
    );
    assert_eq!(
        parse_program("begin add while.true add"),
        Err(ParsingError::UnterminatedBlock { step: 2 })
    );
    assert_eq!(
        parse_program("begin repeat.2 if.true add else"),
        Err(ParsingError::UnterminatedBlock { step: 2 })
    );
    assert_eq!(parse_program("proc.f add"), Err(ParsingError::UnterminatedBlock { step: 0 }));
}

#[test]
fn closers_need_an_open_block() {
    assert_eq!(parse_program("end"), Err(ParsingError::UnexpectedBlockClose { step: 0 }));
    assert_eq!(parse_program("else"), Err(ParsingError::UnexpectedBlockClose { step: 0 }));
    assert_eq!(
        parse_program("begin add end end"),
        Err(ParsingError::UnexpectedBlockClose { step: 3 })
    );
    assert_eq!(
        parse_program("begin add else add end"),
        Err(ParsingError::UnexpectedBlockClose { step: 2 })
    );
    assert_eq!(
        parse_program("begin while.true add else add end end"),
        Err(ParsingError::UnexpectedBlockClose { step: 3 })
    );
    assert_eq!(
        parse_program("begin if.true add else add else add end end"),
        Err(ParsingError::UnexpectedBlockClose { step: 5 })
    );
    assert_eq!(parse_module("end"), Err(ParsingError::UnexpectedBlockClose { step: 0 }));
}

#[test]
fn program_needs_its_body() {
    assert_eq!(parse_program(""), Err(ParsingError::MissingBody));
    assert_eq!(parse_program("  \n\t "), Err(ParsingError::MissingBody));
    assert_eq!(parse_program("proc.f add end"), Err(ParsingError::MissingBody));
    assert_eq!(parse_program("use.std::x"), Err(ParsingError::MissingBody));
}

#[test]
fn top_level_takes_declarations_only() {
    assert_eq!(parse_program("add begin add end"), Err(ParsingError::InvalidOp { step: 0 }));
    assert_eq!(
        parse_program("begin add end add"),
        Err(ParsingError::InvalidOp { step: 3 })
    );
    assert_eq!(
        parse_program("begin add end use.x"),
        Err(ParsingError::InvalidOp { step: 3 })
    );
    assert_eq!(
        parse_program("export.f add end begin add end"),
        Err(ParsingError::InvalidOp { step: 0 })
    );
    assert_eq!(
        parse_program("proc.f add end use.x begin add end"),
        Err(ParsingError::InvalidOp { step: 3 })
    );
    assert_eq!(parse_module("begin add end"), Err(ParsingError::InvalidOp { step: 0 }));
    assert_eq!(
        parse_module("export.f add end add"),
        Err(ParsingError::InvalidOp { step: 3 })
    );
    assert_eq!(parse_program("begin proc.f end end"), Err(ParsingError::InvalidOp { step: 1 }));
}

#[test]
fn module_may_be_empty_and_may_mix_private_and_exported() {
    let module = parse_module("").unwrap();
    assert_eq!(module.procedures.len(), 0);
    let module = parse_module("proc.helper add end export.api exec.helper end").unwrap();
    assert!(!module.procedures.get(b"helper").unwrap().is_export);
    let api = module.procedures.get(b"api").unwrap();
    assert!(api.is_export);
    assert_eq!(api.index, 1);
}

#[test]
fn keywords_take_no_parameter() {
    assert_eq!(parse_program("begin.1 add end"), Err(ParsingError::ExtraParam { step: 0 }));
    assert_eq!(parse_program("begin add end.1"), Err(ParsingError::ExtraParam { step: 2 }));
    assert_eq!(
        parse_program("begin if.true add else.1 add end end"),
        Err(ParsingError::ExtraParam { step: 3 })
    );
}

#[test]
fn conditions_are_written_true() {
    assert_eq!(parse_program("begin if add end end"), Err(ParsingError::MissingParam { step: 1 }));
    assert_eq!(
        parse_program("begin if.false add end end"),
        Err(ParsingError::InvalidParam { step: 1, param: 1 })
    );
    assert_eq!(
        parse_program("begin while.true.1 add end end"),
        Err(ParsingError::ExtraParam { step: 1 })
    );
    assert_eq!(
        parse_program("begin while add end end"),
        Err(ParsingError::MissingParam { step: 1 })
    );
}

#[test]
fn repeat_count_is_positive_and_fits_32_bits() {
    let count = |source: &str| match parse_program(source) {
        Ok(program) => match &program.body[0] {
            Node::Repeat(count, _) => Ok(*count),
            _ => unreachable!(),
        },
        Err(e) => Err(e),
    };
    let invalid = Err(ParsingError::InvalidParam { step: 1, param: 1 });
    assert_eq!(count("begin repeat.1 add end end"), Ok(1));
    assert_eq!(count("begin repeat.4294967295 add end end"), Ok(4294967295));
    assert_eq!(count("begin repeat.0 add end end"), invalid);
    assert_eq!(count("begin repeat.4294967296 add end end"), invalid);
    assert_eq!(count("begin repeat.-1 add end end"), invalid);
    assert_eq!(count("begin repeat.x add end end"), invalid);
    assert_eq!(count("begin repeat add end end"), Err(ParsingError::MissingParam { step: 1 }));
    assert_eq!(count("begin repeat.1.2 add end end"), Err(ParsingError::ExtraParam { step: 1 }));
}

#[test]
fn procedure_headers_are_checked() {
    assert_eq!(parse_module("proc add end"), Err(ParsingError::MissingParam { step: 0 }));
    assert_eq!(parse_module("proc.f.1.2 add end"), Err(ParsingError::ExtraParam { step: 0 }));
    assert_eq!(
        parse_module("proc. add end"),
        Err(ParsingError::InvalidParam { step: 0, param: 1 })
    );
    assert_eq!(
        parse_module("proc.a-b add end"),
        Err(ParsingError::InvalidParam { step: 0, param: 1 })
    );
    assert_eq!(
        parse_module("proc.f.x add end"),
        Err(ParsingError::InvalidParam { step: 0, param: 2 })
    );
    assert_eq!(
        parse_module("proc.f.4294967296 add end"),
        Err(ParsingError::InvalidParam { step: 0, param: 2 })
    );
    let module = parse_module("proc.f_1.4294967295 add end").unwrap();
    assert_eq!(module.procedures.get(b"f_1").unwrap().num_locals, 4294967295);
    assert_eq!(
        parse_module("proc.f add end export.f mul end"),
        Err(ParsingError::DuplicateProcedure { step: 3 })
    );
}

#[test]
fn imports_are_checked() {
    assert_eq!(parse_module("use"), Err(ParsingError::MissingParam { step: 0 }));
    assert_eq!(parse_module("use.a.b"), Err(ParsingError::ExtraParam { step: 0 }));
    assert_eq!(parse_module("use."), Err(ParsingError::InvalidParam { step: 0, param: 1 }));
    assert_eq!(parse_module("use.a/b"), Err(ParsingError::InvalidParam { step: 0, param: 1 }));
    assert!(parse_module("use.std::math use.std::crypto").is_ok());
}

#[test]
fn unknown_mnemonic_is_no_operation() {
    assert_eq!(parse_program("begin bogus end"), Err(ParsingError::InvalidOp { step: 1 }));
    assert_eq!(parse_program("begin .5 end"), Err(ParsingError::InvalidOp { step: 1 }));
    assert_eq!(parse_program("begin ADD end"), Err(ParsingError::InvalidOp { step: 1 }));
    assert_eq!(parse_program("begin add.1 end"), Err(ParsingError::ExtraParam { step: 1 }));
}

#[test]
fn steps_count_statements_across_lines() {
    assert_eq!(
        parse_program("begin\n\tadd\r\n  mul  \n dup.16\nend"),
        Err(ParsingError::InvalidParam { step: 3, param: 1 })
    );
}

#[test]
fn move_without_a_depth_parses_as_depth_2() {
    let program = parse_program("begin movup movdn movupw movdnw end").unwrap();
    assert_eq!(
        program.body,
        vec![
            Node::Instruction(Instruction::MovUp2),
            Node::Instruction(Instruction::MovDn2),
            Node::Instruction(Instruction::MovUpW2),
            Node::Instruction(Instruction::MovDnW2),
        ]
    );
    assert_eq!(program, parse_program("begin movup.2 movdn.2 movupw.2 movdnw.2 end").unwrap());
}
