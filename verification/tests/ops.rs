use assembly::{
    parse_adv_inject, parse_checked_param, parse_dup, parse_dupw, parse_element_param,
    parse_instruction, parse_invocation, parse_loc_load, parse_loc_store, parse_movdn,
    parse_movdnw, parse_movup, parse_movupw, parse_plain, parse_push, parse_swap, parse_swapw,
    AdviceInjectorNode, Felt, Instruction, Node, ParserContext, ParsingError, Token, MODULUS,
};
use winter_crypto::{hashers::Blake3_192, Digest, Hasher};

type Parser = fn(&Token) -> Result<Node, ParsingError>;

fn ok(instruction: Instruction) -> Result<Node, ParsingError> {
    Ok(Node::Instruction(instruction))
}

fn missing(step: usize) -> Result<Node, ParsingError> {
    Err(ParsingError::MissingParam { step })
}

fn extra(step: usize) -> Result<Node, ParsingError> {
    Err(ParsingError::ExtraParam { step })
}

fn invalid(step: usize, param: usize) -> Result<Node, ParsingError> {
    Err(ParsingError::InvalidParam { step, param })
}

fn no_parts(pos: usize) -> Token {
    Token::from_parts(Vec::new(), pos)
}

// DEPTH SELECTORS
// ================================================================================================

#[test]
fn dup_takes_depths_0_to_15() {
    assert_eq!(parse_dup(&Token::new("dup", 0)), ok(Instruction::Dup0));
    assert_eq!(parse_dup(&Token::new("dup.0", 0)), ok(Instruction::Dup0));
    assert_eq!(parse_dup(&Token::new("dup.1", 0)), ok(Instruction::Dup1));
    assert_eq!(parse_dup(&Token::new("dup.7", 0)), ok(Instruction::Dup7));
    assert_eq!(parse_dup(&Token::new("dup.9", 0)), ok(Instruction::Dup9));
    assert_eq!(parse_dup(&Token::new("dup.10", 0)), ok(Instruction::Dup10));
    assert_eq!(parse_dup(&Token::new("dup.15", 0)), ok(Instruction::Dup15));
    assert_eq!(parse_dup(&Token::new("dup.16", 4)), invalid(4, 1));
    assert_eq!(parse_dup(&Token::new("dup.-1", 4)), invalid(4, 1));
    assert_eq!(parse_dup(&Token::new("dup.1.2", 5)), extra(5));
    assert_eq!(parse_dup(&no_parts(6)), missing(6));
}

#[test]
fn depth_is_matched_as_a_literal() {
    for text in ["dup.", "dup.01", "dup.+1", "dup.1 ", "dup.0x1", "dup.one", "dup.100", "dup.1a"] {
        assert_eq!(parse_dup(&Token::new(text, 2)), invalid(2, 1), "{}", text);
    }
}

#[test]
fn dupw_takes_depths_0_to_3() {
    assert_eq!(parse_dupw(&Token::new("dupw", 0)), ok(Instruction::DupW0));
    assert_eq!(parse_dupw(&Token::new("dupw.0", 0)), ok(Instruction::DupW0));
    assert_eq!(parse_dupw(&Token::new("dupw.1", 0)), ok(Instruction::DupW1));
    assert_eq!(parse_dupw(&Token::new("dupw.2", 0)), ok(Instruction::DupW2));
    assert_eq!(parse_dupw(&Token::new("dupw.3", 0)), ok(Instruction::DupW3));
    assert_eq!(parse_dupw(&Token::new("dupw.4", 1)), invalid(1, 1));
    assert_eq!(parse_dupw(&Token::new("dupw.3.0", 1)), extra(1));
    assert_eq!(parse_dupw(&no_parts(1)), missing(1));
}

#[test]
fn swap_takes_depths_1_to_15() {
    assert_eq!(parse_swap(&Token::new("swap", 0)), ok(Instruction::Swap));
    assert_eq!(parse_swap(&Token::new("swap.1", 0)), ok(Instruction::Swap));
    assert_eq!(parse_swap(&Token::new("swap.2", 0)), ok(Instruction::Swap2));
    assert_eq!(parse_swap(&Token::new("swap.15", 0)), ok(Instruction::Swap15));
    assert_eq!(parse_swap(&Token::new("swap.0", 3)), invalid(3, 1));
    assert_eq!(parse_swap(&Token::new("swap.16", 3)), invalid(3, 1));
    assert_eq!(parse_swap(&Token::new("swap.1.1", 3)), extra(3));
    assert_eq!(parse_swap(&no_parts(3)), missing(3));
}

#[test]
fn swapw_takes_depths_1_to_3() {
    assert_eq!(parse_swapw(&Token::new("swapw", 0)), ok(Instruction::SwapW));
    assert_eq!(parse_swapw(&Token::new("swapw.1", 0)), ok(Instruction::SwapW));
    assert_eq!(parse_swapw(&Token::new("swapw.2", 0)), ok(Instruction::SwapW2));
    assert_eq!(parse_swapw(&Token::new("swapw.3", 0)), ok(Instruction::SwapW3));
    assert_eq!(parse_swapw(&Token::new("swapw.0", 3)), invalid(3, 1));
    assert_eq!(parse_swapw(&Token::new("swapw.4", 3)), invalid(3, 1));
    assert_eq!(parse_swapw(&Token::new("swapw.2.2", 3)), extra(3));
    assert_eq!(parse_swapw(&no_parts(3)), missing(3));
}

#[test]
fn movup_and_movdn_take_depths_2_to_15() {
    assert_eq!(parse_movup(&Token::new("movup", 0)), ok(Instruction::MovUp2));
    assert_eq!(parse_movup(&Token::new("movup.2", 0)), ok(Instruction::MovUp2));
    assert_eq!(parse_movup(&Token::new("movup.8", 0)), ok(Instruction::MovUp8));
    assert_eq!(parse_movup(&Token::new("movup.15", 0)), ok(Instruction::MovUp15));
    assert_eq!(parse_movdn(&Token::new("movdn", 0)), ok(Instruction::MovDn2));
    assert_eq!(parse_movdn(&Token::new("movdn.2", 0)), ok(Instruction::MovDn2));
    assert_eq!(parse_movdn(&Token::new("movdn.11", 0)), ok(Instruction::MovDn11));
    assert_eq!(parse_movdn(&Token::new("movdn.15", 0)), ok(Instruction::MovDn15));
    let parsers: [(Parser, &str); 2] = [(parse_movup, "movup"), (parse_movdn, "movdn")];
    for (parse, mnemonic) in parsers {
        assert_eq!(parse(&no_parts(9)), missing(9));
        assert_eq!(parse(&Token::new(&format!("{}.1", mnemonic), 9)), invalid(9, 1));
        assert_eq!(parse(&Token::new(&format!("{}.0", mnemonic), 9)), invalid(9, 1));
        assert_eq!(parse(&Token::new(&format!("{}.16", mnemonic), 9)), invalid(9, 1));
        assert_eq!(parse(&Token::new(&format!("{}.", mnemonic), 9)), invalid(9, 1));
        assert_eq!(parse(&Token::new(&format!("{}.2.3", mnemonic), 9)), extra(9));
    }
}

#[test]
fn movupw_and_movdnw_take_depth_2_or_3() {
    assert_eq!(parse_movupw(&Token::new("movupw", 0)), ok(Instruction::MovUpW2));
    assert_eq!(parse_movupw(&Token::new("movupw.2", 0)), ok(Instruction::MovUpW2));
    assert_eq!(parse_movupw(&Token::new("movupw.3", 0)), ok(Instruction::MovUpW3));
    assert_eq!(parse_movdnw(&Token::new("movdnw", 0)), ok(Instruction::MovDnW2));
    assert_eq!(parse_movdnw(&Token::new("movdnw.2", 0)), ok(Instruction::MovDnW2));
    assert_eq!(parse_movdnw(&Token::new("movdnw.3", 0)), ok(Instruction::MovDnW3));
    let parsers: [(Parser, &str); 2] = [(parse_movupw, "movupw"), (parse_movdnw, "movdnw")];
    for (parse, mnemonic) in parsers {
        assert_eq!(parse(&no_parts(9)), missing(9));
        assert_eq!(parse(&Token::new(&format!("{}.1", mnemonic), 9)), invalid(9, 1));
        assert_eq!(parse(&Token::new(&format!("{}.4", mnemonic), 9)), invalid(9, 1));
        assert_eq!(parse(&Token::new(&format!("{}.", mnemonic), 9)), invalid(9, 1));
        assert_eq!(parse(&Token::new(&format!("{}.2.3", mnemonic), 9)), extra(9));
    }
}

#[test]
fn mnemonic_alone_stands_for_the_least_depth() {
    let defaults: [(Parser, &str, Instruction); 8] = [
        (parse_dup, "dup", Instruction::Dup0),
        (parse_dupw, "dupw", Instruction::DupW0),
        (parse_swap, "swap", Instruction::Swap),
        (parse_swapw, "swapw", Instruction::SwapW),
        (parse_movup, "movup", Instruction::MovUp2),
        (parse_movdn, "movdn", Instruction::MovDn2),
        (parse_movupw, "movupw", Instruction::MovUpW2),
        (parse_movdnw, "movdnw", Instruction::MovDnW2),
    ];
    let ctx = ParserContext { imports: Vec::new(), procs: Vec::new() };
    for (parse, mnemonic, instruction) in defaults {
        let expected = Ok(Node::Instruction(instruction));
        assert_eq!(parse(&Token::new(mnemonic, 0)), expected);
        assert_eq!(parse_instruction(&Token::new(mnemonic, 0), &ctx), expected);
    }
}

#[test]
fn every_legal_depth_gives_its_own_instruction() {
    let families: [(Parser, &str, u32, u32); 8] = [
        (parse_dup, "dup", 0, 15),
        (parse_dupw, "dupw", 0, 3),
        (parse_swap, "swap", 1, 15),
        (parse_swapw, "swapw", 1, 3),
        (parse_movup, "movup", 2, 15),
        (parse_movdn, "movdn", 2, 15),
        (parse_movupw, "movupw", 2, 3),
        (parse_movdnw, "movdnw", 2, 3),
    ];
    let mut seen: Vec<Node> = Vec::new();
    for (parse, mnemonic, lo, hi) in families {
        for depth in lo..=hi {
            let node = parse(&Token::new(&format!("{}.{}", mnemonic, depth), 0)).unwrap();
            assert!(!seen.contains(&node), "{}.{}", mnemonic, depth);
            seen.push(node);
        }
        if lo > 0 {
            assert_eq!(parse(&Token::new(&format!("{}.{}", mnemonic, lo - 1), 0)), invalid(0, 1));
        }
        assert_eq!(parse(&Token::new(&format!("{}.{}", mnemonic, hi + 1), 0)), invalid(0, 1));
    }
    assert_eq!(seen.len(), 70);
}

// ADVICE INJECTION
// ================================================================================================

#[test]
fn adv_push_u64div_takes_no_parameter() {
    assert_eq!(
        parse_adv_inject(&Token::new("adv.push_u64div", 0)),
        ok(Instruction::AdvInject(AdviceInjectorNode::PushU64div))
    );
    assert_eq!(parse_adv_inject(&Token::new("adv.push_u64div.1", 3)), extra(3));
    assert_eq!(
        parse_adv_inject(&Token::new("adv.bogus", 3)),
        Err(ParsingError::InvalidOp { step: 3 })
    );
}

#[test]
fn adv_names_each_injector() {
    let injectors = [
        ("adv.push_u64div", AdviceInjectorNode::PushU64div),
        ("adv.push_ext2intt", AdviceInjectorNode::PushExt2intt),
        ("adv.push_smtget", AdviceInjectorNode::PushSmtGet),
        ("adv.push_mapval", AdviceInjectorNode::PushMapVal),
        ("adv.push_mtnode", AdviceInjectorNode::PushMtNode),
        ("adv.insert_mem", AdviceInjectorNode::InsertMem),
    ];
    for (text, injector) in injectors {
        assert_eq!(parse_adv_inject(&Token::new(text, 1)), ok(Instruction::AdvInject(injector)));
        assert_eq!(parse_adv_inject(&Token::new(&format!("{}.0", text), 1)), extra(1));
    }
    assert_eq!(parse_adv_inject(&Token::new("adv", 2)), missing(2));
    assert_eq!(parse_adv_inject(&no_parts(2)), missing(2));
    assert_eq!(parse_adv_inject(&Token::new("adv.", 2)), Err(ParsingError::InvalidOp { step: 2 }));
    assert_eq!(
        parse_adv_inject(&Token::new("adv.bogus.1.2.3", 2)),
        Err(ParsingError::InvalidOp { step: 2 })
    );
}

#[test]
fn insert_hdword_takes_an_optional_domain_byte() {
    let hdword = |domain: u8| ok(Instruction::AdvInject(AdviceInjectorNode::InsertHdword { domain }));
    assert_eq!(parse_adv_inject(&Token::new("adv.insert_hdword", 0)), hdword(0));
    assert_eq!(parse_adv_inject(&Token::new("adv.insert_hdword.0", 0)), hdword(0));
    assert_eq!(parse_adv_inject(&Token::new("adv.insert_hdword.1", 0)), hdword(1));
    assert_eq!(parse_adv_inject(&Token::new("adv.insert_hdword.255", 0)), hdword(255));
    assert_eq!(parse_adv_inject(&Token::new("adv.insert_hdword.007", 0)), hdword(7));
    assert_eq!(parse_adv_inject(&Token::new("adv.insert_hdword.+7", 0)), hdword(7));
    assert_eq!(parse_adv_inject(&Token::new("adv.insert_hdword.256", 5)), invalid(5, 2));
    assert_eq!(parse_adv_inject(&Token::new("adv.insert_hdword.-1", 5)), invalid(5, 2));
    assert_eq!(parse_adv_inject(&Token::new("adv.insert_hdword.", 5)), invalid(5, 2));
    assert_eq!(parse_adv_inject(&Token::new("adv.insert_hdword.+", 5)), invalid(5, 2));
    assert_eq!(parse_adv_inject(&Token::new("adv.insert_hdword.0x10", 5)), invalid(5, 2));
    assert_eq!(parse_adv_inject(&Token::new("adv.insert_hdword.1.2", 5)), extra(5));
}

// THE PARAMETER VALIDATOR
// ================================================================================================

#[test]
fn checked_param_takes_the_range_with_both_ends() {
    let op = Token::new("x.9.10.20.21.99999999999999999999.18446744073709551615", 8);
    let invalid = |param: usize| Err(ParsingError::InvalidParam { step: 8, param });
    assert_eq!(parse_checked_param(&op, 1, 10, 20), invalid(1));
    assert_eq!(parse_checked_param(&op, 2, 10, 20), Ok(10));
    assert_eq!(parse_checked_param(&op, 3, 10, 20), Ok(20));
    assert_eq!(parse_checked_param(&op, 4, 10, 20), invalid(4));
    assert_eq!(parse_checked_param(&op, 5, 0, u64::MAX), invalid(5));
    assert_eq!(parse_checked_param(&op, 6, 0, u64::MAX), Ok(u64::MAX));
    assert_eq!(parse_checked_param(&op, 6, 0, u64::MAX - 1), invalid(6));
    assert_eq!(parse_checked_param(&op, 0, 0, u64::MAX), invalid(0));
}

#[test]
fn element_param_is_decimal_or_hexadecimal_below_the_modulus() {
    let op = Token::new(
        "x.0.18446744069414584320.18446744069414584321.0xabc234.0xFFFFFFFF00000000.0xffffffff00000001.0x.12ab.0X1f",
        0,
    );
    let invalid = |param: usize| Err(ParsingError::InvalidParam { step: 0, param });
    assert_eq!(parse_element_param(&op, 1), Ok(Felt::new(0)));
    assert_eq!(parse_element_param(&op, 2), Ok(Felt::new(MODULUS - 1)));
    assert_eq!(parse_element_param(&op, 2).unwrap().as_int(), 18446744069414584320);
    assert_eq!(parse_element_param(&op, 3), invalid(3));
    assert_eq!(parse_element_param(&op, 4).unwrap().as_int(), 0xabc234);
    assert_eq!(parse_element_param(&op, 5).unwrap().as_int(), 0xFFFF_FFFF_0000_0000);
    assert_eq!(parse_element_param(&op, 6), invalid(6));
    assert_eq!(parse_element_param(&op, 7), invalid(7));
    assert_eq!(parse_element_param(&op, 8), invalid(8));
    assert_eq!(parse_element_param(&op, 9), invalid(9));
}

// CONSTANTS AND LOCAL MEMORY
// ================================================================================================

#[test]
fn push_takes_1_to_16_constants() {
    assert_eq!(
        parse_push(&Token::new("push.1.0x10.3", 0)),
        ok(Instruction::PushConstants(vec![Felt::new(1), Felt::new(16), Felt::new(3)]))
    );
    let sixteen = "push.0.1.2.3.4.5.6.7.8.9.10.11.12.13.14.15";
    let constants: Vec<Felt> = (0..16u64).map(Felt::new).collect();
    assert_eq!(parse_push(&Token::new(sixteen, 0)), ok(Instruction::PushConstants(constants)));
    assert_eq!(parse_push(&Token::new(&format!("{}.16", sixteen), 2)), extra(2));
    assert_eq!(parse_push(&Token::new("push", 2)), missing(2));
    assert_eq!(parse_push(&no_parts(2)), missing(2));
    assert_eq!(parse_push(&Token::new("push.1.x.y", 2)), invalid(2, 2));
    assert_eq!(parse_push(&Token::new("push.1.2.", 2)), invalid(2, 3));
    assert_eq!(parse_push(&Token::new("push.18446744069414584321", 2)), invalid(2, 1));
    assert_eq!(
        parse_push(&Token::new("push.18446744069414584320", 2)),
        ok(Instruction::PushConstants(vec![Felt::new(MODULUS - 1)]))
    );
}

#[test]
fn local_memory_takes_one_index() {
    assert_eq!(parse_loc_load(&Token::new("loc_load.0", 0)), ok(Instruction::LocLoad(Felt::new(0))));
    assert_eq!(
        parse_loc_store(&Token::new("loc_store.0x11", 0)),
        ok(Instruction::LocStore(Felt::new(17)))
    );
    let parsers: [(Parser, &str); 2] = [(parse_loc_load, "loc_load"), (parse_loc_store, "loc_store")];
    for (parse, mnemonic) in parsers {
        assert_eq!(parse(&Token::new(mnemonic, 1)), missing(1));
        assert_eq!(parse(&Token::new(&format!("{}.1.2", mnemonic), 1)), extra(1));
        assert_eq!(parse(&Token::new(&format!("{}.a", mnemonic), 1)), invalid(1, 1));
        assert_eq!(
            parse(&Token::new(&format!("{}.18446744069414584321", mnemonic), 1)),
            invalid(1, 1)
        );
    }
}

// OPERATIONS WITHOUT PARAMETERS
// ================================================================================================

#[test]
fn plain_operations_take_no_parameter() {
    let operations = [
        ("assert", Instruction::Assert),
        ("assert_eq", Instruction::AssertEq),
        ("assertz", Instruction::Assertz),
        ("add", Instruction::Add),
        ("sub", Instruction::Sub),
        ("mul", Instruction::Mul),
        ("div", Instruction::Div),
        ("neg", Instruction::Neg),
        ("inv", Instruction::Inv),
        ("not", Instruction::Not),
        ("and", Instruction::And),
        ("or", Instruction::Or),
        ("xor", Instruction::Xor),
        ("eq", Instruction::Eq),
        ("neq", Instruction::Neq),
        ("lt", Instruction::Lt),
        ("lte", Instruction::Lte),
        ("gt", Instruction::Gt),
        ("gte", Instruction::Gte),
        ("u32checked_add", Instruction::U32CheckedAdd),
        ("u32wrapping_add", Instruction::U32WrappingAdd),
        ("u32overflowing_add", Instruction::U32OverflowingAdd),
        ("u32checked_sub", Instruction::U32CheckedSub),
        ("u32wrapping_sub", Instruction::U32WrappingSub),
        ("u32overflowing_sub", Instruction::U32OverflowingSub),
        ("u32checked_mul", Instruction::U32CheckedMul),
        ("u32wrapping_mul", Instruction::U32WrappingMul),
        ("u32overflowing_mul", Instruction::U32OverflowingMul),
        ("drop", Instruction::Drop),
        ("dropw", Instruction::DropW),
        ("padw", Instruction::PadW),
        ("cswap", Instruction::CSwap),
        ("cswapw", Instruction::CSwapW),
        ("cdrop", Instruction::CDrop),
        ("cdropw", Instruction::CDropW),
    ];
    let ctx = ParserContext { imports: Vec::new(), procs: Vec::new() };
    for (mnemonic, instruction) in operations {
        assert_eq!(parse_plain(&Token::new(mnemonic, 4)), Ok(Node::Instruction(instruction)));
        assert_eq!(parse_plain(&Token::new(&format!("{}.1", mnemonic), 4)), extra(4));
        assert!(parse_instruction(&Token::new(mnemonic, 4), &ctx).is_ok());
    }
    assert_eq!(parse_plain(&Token::new("addd", 4)), Err(ParsingError::InvalidOp { step: 4 }));
    assert_eq!(parse_plain(&Token::new("", 4)), Err(ParsingError::InvalidOp { step: 4 }));
    assert_eq!(parse_plain(&no_parts(4)), missing(4));
}

// DISPATCH AND CALLS
// ================================================================================================

#[test]
fn mnemonic_picks_the_family() {
    let ctx = ParserContext { imports: vec![b"std::sys".to_vec()], procs: vec![b"f".to_vec()] };
    let parse = |text: &str| parse_instruction(&Token::new(text, 0), &ctx);
    assert_eq!(parse("dup.2"), ok(Instruction::Dup2));
    assert_eq!(parse("dupw.2"), ok(Instruction::DupW2));
    assert_eq!(parse("swap"), ok(Instruction::Swap));
    assert_eq!(parse("swapw.2"), ok(Instruction::SwapW2));
    assert_eq!(parse("movup.2"), ok(Instruction::MovUp2));
    assert_eq!(parse("movdn.2"), ok(Instruction::MovDn2));
    assert_eq!(parse("movupw.2"), ok(Instruction::MovUpW2));
    assert_eq!(parse("movdnw.2"), ok(Instruction::MovDnW2));
    assert_eq!(parse("adv.insert_mem"), ok(Instruction::AdvInject(AdviceInjectorNode::InsertMem)));
    assert_eq!(parse("push.5"), ok(Instruction::PushConstants(vec![Felt::new(5)])));
    assert_eq!(parse("loc_load.1"), ok(Instruction::LocLoad(Felt::new(1))));
    assert_eq!(parse("loc_store.1"), ok(Instruction::LocStore(Felt::new(1))));
    assert_eq!(parse("exec.f"), ok(Instruction::ExecLocal(0)));
    assert_eq!(parse("call.f"), ok(Instruction::CallLocal(0)));
    assert_eq!(parse("xor"), ok(Instruction::Xor));
    assert_eq!(parse("movup"), ok(Instruction::MovUp2));
    assert_eq!(parse("movdnw"), ok(Instruction::MovDnW2));
    assert_eq!(parse("push"), missing(0));
    assert_eq!(parse("nop"), Err(ParsingError::InvalidOp { step: 0 }));
    assert_eq!(parse_instruction(&no_parts(0), &ctx), missing(0));
}

#[test]
fn invocation_resolves_names_in_its_context() {
    let ctx = ParserContext {
        imports: vec![b"std::math::u64".to_vec(), b"u64".to_vec(), b"crypto".to_vec()],
        procs: vec![b"first".to_vec(), b"second".to_vec(), b"first".to_vec()],
    };
    let invoke = |text: &str, call: bool| parse_invocation(&Token::new(text, 3), &ctx, call);
    assert_eq!(invoke("exec.first", false), ok(Instruction::ExecLocal(0)));
    assert_eq!(invoke("exec.second", false), ok(Instruction::ExecLocal(1)));
    assert_eq!(invoke("call.second", true), ok(Instruction::CallLocal(1)));
    assert_eq!(invoke("exec.third", false), Err(ParsingError::UndeclaredProcedure { step: 3 }));
    let digest = |name: &[u8]| {
        let mut out = [0u8; 24];
        out.copy_from_slice(&Blake3_192::<miden_core::Felt>::hash(name).as_bytes()[..24]);
        out
    };
    assert_eq!(
        invoke("exec.u64::add", false),
        ok(Instruction::ExecImported(digest(b"std::math::u64::add")))
    );
    assert_eq!(
        invoke("call.crypto::hash", true),
        ok(Instruction::CallImported(digest(b"crypto::hash")))
    );
    assert_ne!(digest(b"crypto::hash").to_vec(), b"crypto::hash".to_vec());
    assert_eq!(invoke("exec.math::add", false), Err(ParsingError::UndeclaredProcedure { step: 3 }));
    assert_eq!(invoke("exec.4::add", false), Err(ParsingError::UndeclaredProcedure { step: 3 }));
    assert_eq!(invoke("exec", false), missing(3));
    assert_eq!(invoke("exec.a.b", false), extra(3));
    assert_eq!(invoke("exec.a:b", false), invalid(3, 1));
    assert_eq!(invoke("exec.", false), invalid(3, 1));
}

#[test]
fn local_index_must_fit_16_bits() {
    let mut procs: Vec<Vec<u8>> = vec![b"x".to_vec(); 65536];
    procs[65535] = b"last".to_vec();
    procs.push(b"beyond".to_vec());
    let ctx = ParserContext { imports: Vec::new(), procs };
    assert_eq!(
        parse_invocation(&Token::new("exec.x", 0), &ctx, false),
        ok(Instruction::ExecLocal(0))
    );
    assert_eq!(
        parse_invocation(&Token::new("exec.last", 0), &ctx, false),
        ok(Instruction::ExecLocal(65535))
    );
    assert_eq!(
        parse_invocation(&Token::new("call.beyond", 7), &ctx, true),
        Err(ParsingError::TooManyProcedures { step: 7 })
    );
}
