use assembly::{tokenize, Felt, Instruction, Node, ProcMap, ProcedureAst, Token, MODULUS};
use miden_core::{Felt as CoreFelt, FieldElement, StarkField};

// FIELD ELEMENTS
// ================================================================================================

#[test]
fn modulus_is_that_of_the_base_field() {
    assert_eq!(MODULUS, CoreFelt::MODULUS);
    assert_eq!(MODULUS, 18446744069414584321);
}

#[test]
fn felt_holds_the_canonical_representative() {
    assert_eq!(Felt::new(0).as_int(), 0);
    assert_eq!(Felt::zero().as_int(), CoreFelt::ZERO.as_int());
    assert_eq!(Felt::new(12345).as_int(), 12345);
    assert_eq!(Felt::new(MODULUS - 1).as_int(), MODULUS - 1);
    assert_eq!(Felt::new(MODULUS).as_int(), 0);
    assert_eq!(Felt::new(MODULUS + 7).as_int(), 7);
    assert_eq!(Felt::new(u64::MAX).as_int(), u64::MAX - MODULUS);
    assert_eq!(Felt::new(42), Felt::new(42 + MODULUS));
    for value in [0, 1, MODULUS - 1, MODULUS, MODULUS + 1, u64::MAX] {
        assert_eq!(Felt::new(value).as_int(), CoreFelt::new(value).as_int());
    }
}

// TOKENS
// ================================================================================================

fn parts(token: &Token) -> Vec<String> {
    token.parts().iter().map(|p| String::from_utf8(p.clone()).unwrap()).collect()
}

#[test]
fn token_splits_at_every_dot() {
    let token = Token::new("push.1.0x2", 5);
    assert_eq!(token.pos(), 5);
    assert_eq!(token.num_parts(), 3);
    assert_eq!(parts(&token), ["push", "1", "0x2"]);
    assert_eq!(token.part(2), b"0x2");
    assert!(token.named("push"));
    assert!(!token.named("pus"));
    assert_eq!(parts(&Token::new("add", 0)), ["add"]);
    assert_eq!(parts(&Token::new("", 0)), [""]);
    assert_eq!(parts(&Token::new(".", 0)), ["", ""]);
    assert_eq!(parts(&Token::new("a..b.", 0)), ["a", "", "b", ""]);
    assert_eq!(parts(&Token::new(".a", 0)), ["", "a"]);
    assert_eq!(parts(&Token::new("use.std::math", 0)), ["use", "std::math"]);
    assert_eq!(Token::from_bytes(b"dup.1", 2), Token::new("dup.1", 2));
    assert_eq!(Token::from_parts(vec![b"dup".to_vec(), b"1".to_vec()], 2), Token::new("dup.1", 2));
    assert!(!Token::from_parts(Vec::new(), 0).named("dup"));
}

#[test]
fn source_splits_at_every_run_of_spaces() {
    let tokens = tokenize(b"  begin\n\tpush.1 \r\n add\x0b\x0cend ");
    let texts: Vec<Vec<String>> = tokens.iter().map(parts).collect();
    assert_eq!(texts, [vec!["begin"], vec!["push", "1"], vec!["add"], vec!["end"]]);
    let positions: Vec<usize> = tokens.iter().map(|t| t.pos()).collect();
    assert_eq!(positions, [0, 1, 2, 3]);
    assert!(tokenize(b"").is_empty());
    assert!(tokenize(b" \n\t").is_empty());
    assert_eq!(tokenize(b"x").len(), 1);
    assert_eq!(tokenize("a\u{a0}b".as_bytes()).len(), 1);
}

// PROCEDURE MAPS
// ================================================================================================

fn procedure(name: &[u8], index: u16) -> ProcedureAst {
    ProcedureAst {
        name: name.to_vec(),
        is_export: false,
        num_locals: 0,
        index,
        body: vec![Node::Instruction(Instruction::Add)],
    }
}

#[test]
fn procedure_map_keeps_names_sorted_and_unique() {
    let mut map = ProcMap::new();
    assert_eq!(map.len(), 0);
    assert!(map.get(b"a").is_none());
    assert!(!map.insert(procedure(b"m", 0)));
    assert!(!map.insert(procedure(b"a", 1)));
    assert!(!map.insert(procedure(b"z", 2)));
    assert!(!map.insert(procedure(b"ma", 3)));
    assert!(!map.insert(procedure(b"", 4)));
    assert!(!map.insert(procedure(b"M", 5)));
    assert_eq!(map.len(), 6);
    let names: Vec<&[u8]> = map.procedures().iter().map(|p| p.name.as_slice()).collect();
    let sorted: Vec<&[u8]> = vec![b"", b"M", b"a", b"m", b"ma", b"z"];
    assert_eq!(names, sorted);
    assert!(map.insert(procedure(b"m", 9)));
    assert_eq!(map.len(), 6);
    assert_eq!(map.get(b"m").unwrap().index, 9);
    assert_eq!(map.get(b"ma").unwrap().index, 3);
    assert!(map.contains_key(b"z"));
    assert!(map.contains_key(b""));
    assert!(!map.contains_key(b"zz"));
    assert!(!map.contains_key(b"b"));
    assert!(map.get(b"mb").is_none());
}
