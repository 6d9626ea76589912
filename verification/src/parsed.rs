use crate::blocks::{closes_block, spec_parse_body, spec_parse_node};
use crate::errors::DecodeError;
use crate::felt::{group_felt, Felt};
use crate::format::{decode_module, decode_program, encode_module, encode_program, procedures_wf};
use crate::instructions::spec_parse_instruction;
use crate::io_ops::constants_from;
use crate::laws::{holds, lemma_insert_holds};
use crate::nodes::{nodes_wf, NodeView, ProcView};
use crate::proc_ops::ContextView;
use crate::procs::{insert_procedure, lemma_insert_sorted, sorted_by_name, sorted_procedures};
use crate::program::{
    names_of, spec_parse_imports, spec_parse_module, spec_parse_procedures, spec_parse_program,
    ModuleView, ProgramView,
};
use crate::roundtrip::{lemma_module_round_trip, lemma_program_round_trip};
use crate::tokens::{
    mnemonic_is, spec_tokenize, split_from, split_parts, tokens_of, words_from, TokenView,
};
use vstd::prelude::*;

verus! {

broadcast use group_felt;

// SIZES
// ================================================================================================

/// No byte string is longer than `bound`.
pub open spec fn all_within(parts: Seq<Seq<u8>>, bound: nat) -> bool {
    forall|k: int| 0 <= k < parts.len() ==> (#[trigger] parts[k]).len() <= bound
}

/// A 64-bit number can hold the length of each byte string.
pub open spec fn lengths_fit(parts: Seq<Seq<u8>>) -> bool {
    all_within(parts, u64::MAX as nat)
}

/// A 64-bit number can count the tokens and hold the length of each part.
pub open spec fn tokens_fit(tokens: Seq<TokenView>) -> bool {
    tokens.len() <= u64::MAX && forall|i: int|
        0 <= i < tokens.len() ==> lengths_fit((#[trigger] tokens[i]).parts)
}

proof fn lemma_push_within(done: Seq<Seq<u8>>, piece: Seq<u8>, bound: nat)
    requires
        all_within(done, bound),
        piece.len() <= bound,
    ensures
        all_within(done.push(piece), bound),
{
    let all = done.push(piece);
    assert forall|k: int| 0 <= k < all.len() implies (#[trigger] all[k]).len() <= bound by {
        if k < done.len() {
            assert(all[k] == done[k]);
        }
    }
}

/// No piece is longer than the text that is split.
pub proof fn lemma_split_lengths(s: Seq<u8>, sep: u8, i: int, start: int, done: Seq<Seq<u8>>)
    requires
        0 <= start <= i <= s.len(),
        all_within(done, s.len()),
    ensures
        all_within(split_from(s, sep, i, start, done), s.len()),
    decreases s.len() - i,
{
    if i >= s.len() {
        lemma_push_within(done, s.subrange(start, s.len() as int), s.len());
    } else if s[i] == sep {
        lemma_push_within(done, s.subrange(start, i), s.len());
        lemma_split_lengths(s, sep, i + 1, i + 1, done.push(s.subrange(start, i)));
    } else {
        lemma_split_lengths(s, sep, i + 1, start, done);
    }
}

/// No statement is longer than the source, and there are no more statements
/// than bytes.
pub proof fn lemma_words_lengths(s: Seq<u8>, i: int, start: int, done: Seq<Seq<u8>>)
    requires
        0 <= start <= i <= s.len(),
        all_within(done, s.len()),
    ensures
        all_within(words_from(s, i, start, done), s.len()),
        words_from(s, i, start, done).len() <= done.len() + (s.len() - start),
    decreases s.len() - i,
{
    if i >= s.len() {
        if start < s.len() {
            lemma_push_within(done, s.subrange(start, s.len() as int), s.len());
        }
    } else if crate::tokens::is_space(s[i]) {
        if start < i {
            lemma_push_within(done, s.subrange(start, i), s.len());
            lemma_words_lengths(s, i + 1, i + 1, done.push(s.subrange(start, i)));
        } else {
            lemma_words_lengths(s, i + 1, i + 1, done);
        }
    } else {
        lemma_words_lengths(s, i + 1, start, done);
    }
}

/// The tokens of a source whose length a 64-bit number can hold fit too.
pub proof fn lemma_tokens_fit(source: Seq<u8>)
    requires
        source.len() <= u64::MAX,
    ensures
        tokens_fit(spec_tokenize(source)),
{
    let words = words_from(source, 0, 0, Seq::empty());
    lemma_words_lengths(source, 0, 0, Seq::empty());
    let tokens = tokens_of(words);
    assert forall|i: int| 0 <= i < tokens.len() implies lengths_fit((#[trigger] tokens[i]).parts) by {
        let word = words[i];
        lemma_split_lengths(word, 46, 0, 0, Seq::empty());
        assert(tokens[i].parts == split_parts(word));
        assert(word.len() <= source.len());
    }
}

// WELL-FORMEDNESS
// ================================================================================================

/// The constants of a `push` are canonical.
pub proof fn lemma_constants_wf(op: TokenView, i: int, done: Seq<Felt>)
    requires
        0 <= i,
        forall|k: int| 0 <= k < done.len() ==> (#[trigger] done[k]).is_canonical(),
    ensures
        constants_from(op, i, done) matches Ok(constants) ==> forall|k: int|
            0 <= k < constants.len() ==> (#[trigger] constants[k]).is_canonical(),
    decreases op.parts.len() - i,
{
    if i < op.parts.len() {
        match crate::io_ops::element_value(op.parts[i]) {
            Some(value) => {
                let all = done.push(crate::felt::felt(value));
                assert forall|k: int| 0 <= k < all.len() implies (#[trigger] all[k]).is_canonical() by {
                    if k < done.len() {
                        assert(all[k] == done[k]);
                    }
                }
                lemma_constants_wf(op, i + 1, all);
            },
            None => {},
        }
    }
}

/// A `push` has at most one constant for each part from `i` on.
pub proof fn lemma_constants_count(op: TokenView, i: int, done: Seq<Felt>)
    requires
        0 <= i,
    ensures
        constants_from(op, i, done) matches Ok(constants) ==> constants.len() <= done.len() + if i
            < op.parts.len() {
            op.parts.len() - i
        } else {
            0
        },
    decreases op.parts.len() - i,
{
    if i < op.parts.len() {
        match crate::io_ops::element_value(op.parts[i]) {
            Some(value) => {
                lemma_constants_count(op, i + 1, done.push(crate::felt::felt(value)));
            },
            None => {},
        }
    }
}

/// Every instruction that a statement writes is well formed.
pub proof fn lemma_instruction_wf(op: TokenView, ctx: ContextView)
    ensures
        spec_parse_instruction(op, ctx) matches Ok(instruction) ==> instruction.wf(),
{
    reveal(spec_parse_instruction);
    if mnemonic_is(op, "push") {
        lemma_constants_wf(op, 1, Seq::empty());
        lemma_constants_count(op, 1, Seq::empty());
    }
}

/// The nodes of a body are well formed, and there is at most one for each
/// token that the body takes.
pub proof fn lemma_body_wf(tokens: Seq<TokenView>, pos: int, ctx: ContextView, done: Seq<NodeView>)
    requires
        0 <= pos <= tokens.len() <= u64::MAX,
        forall|k: int| 0 <= k < done.len() ==> (#[trigger] done[k]).wf(),
    ensures
        spec_parse_body(tokens, pos, ctx, done) matches Ok((nodes, next)) ==> {
            &&& forall|k: int| 0 <= k < nodes.len() ==> (#[trigger] nodes[k]).wf()
            &&& pos <= next <= tokens.len()
            &&& nodes.len() <= done.len() + (next - pos)
        },
    decreases tokens.len() - pos, 1int,
{
    if pos < tokens.len() && !closes_block(tokens[pos]) {
        lemma_node_wf(tokens, pos, ctx);
        match spec_parse_node(tokens, pos, ctx) {
            Ok((node, next)) => {
                let all = done.push(node);
                assert forall|k: int| 0 <= k < all.len() implies (#[trigger] all[k]).wf() by {
                    if k < done.len() {
                        assert(all[k] == done[k]);
                    }
                }
                lemma_body_wf(tokens, next, ctx, all);
            },
            Err(_) => {},
        }
    }
}

/// The node that starts at a token is well formed.
pub proof fn lemma_node_wf(tokens: Seq<TokenView>, pos: int, ctx: ContextView)
    requires
        0 <= pos < tokens.len() <= u64::MAX,
    ensures
        spec_parse_node(tokens, pos, ctx) matches Ok((node, next)) ==> node.wf() && pos < next
            <= tokens.len(),
    decreases tokens.len() - pos, 0int,
{
    let op = tokens[pos];
    if mnemonic_is(op, "if") || mnemonic_is(op, "while") || mnemonic_is(op, "repeat") {
        lemma_body_wf(tokens, pos + 1, ctx, Seq::empty());
        match spec_parse_body(tokens, pos + 1, ctx, Seq::empty()) {
            Ok((_, at)) => {
                if at < tokens.len() {
                    lemma_body_wf(tokens, at + 1, ctx, Seq::empty());
                }
            },
            Err(_) => {},
        }
    } else {
        lemma_instruction_wf(op, ctx);
    }
}

/// The procedures that declarations declare are well formed, and there is at
/// most one for each token that the declarations take.
pub proof fn lemma_declared_wf(
    tokens: Seq<TokenView>,
    pos: int,
    imports: Seq<Seq<u8>>,
    allow_export: bool,
    done: Seq<ProcView>,
)
    requires
        0 <= pos <= tokens.len(),
        tokens_fit(tokens),
        forall|k: int| 0 <= k < done.len() ==> (#[trigger] done[k]).wf(),
    ensures
        spec_parse_procedures(tokens, pos, imports, allow_export, done) matches Ok(
            (declared, next),
        ) ==> {
            &&& forall|k: int| 0 <= k < declared.len() ==> (#[trigger] declared[k]).wf()
            &&& pos <= next <= tokens.len()
            &&& declared.len() <= done.len() + (next - pos)
        },
    decreases tokens.len() - pos,
{
    if pos < tokens.len() && (mnemonic_is(tokens[pos], "proc") || mnemonic_is(
        tokens[pos],
        "export",
    )) {
        let op = tokens[pos];
        let ctx = ContextView { imports, procs: names_of(done) };
        lemma_body_wf(tokens, pos + 1, ctx, Seq::empty());
        assert(lengths_fit(op.parts));
        match spec_parse_procedures(tokens, pos, imports, allow_export, done) {
            Ok(_) => {
                let header = crate::program::spec_proc_header(op)->Ok_0;
                let parsed = spec_parse_body(tokens, pos + 1, ctx, Seq::empty())->Ok_0;
                let p = ProcView {
                    name: header.0,
                    is_export: !mnemonic_is(op, "proc"),
                    num_locals: header.1,
                    index: done.len() as u16,
                    body: parsed.0,
                };
                assert(header.0 == op.parts[1]);
                assert(p.wf());
                let all = done.push(p);
                assert forall|k: int| 0 <= k < all.len() implies (#[trigger] all[k]).wf() by {
                    if k < done.len() {
                        assert(all[k] == done[k]);
                    }
                }
                lemma_declared_wf(tokens, parsed.1 + 1, imports, allow_export, all);
            },
            Err(_) => {},
        }
    }
}

/// Well-formed procedures sorted by name are well-formed sorted procedures,
/// and no more than there were.
pub proof fn lemma_sorted_wf(declared: Seq<ProcView>)
    requires
        forall|k: int| 0 <= k < declared.len() ==> (#[trigger] declared[k]).wf(),
    ensures
        sorted_by_name(sorted_procedures(declared)),
        forall|k: int|
            0 <= k < sorted_procedures(declared).len() ==> (#[trigger] sorted_procedures(
                declared,
            )[k]).wf(),
        sorted_procedures(declared).len() <= declared.len(),
    decreases declared.len(),
{
    if declared.len() > 0 {
        let rest = declared.drop_last();
        let last = declared.last();
        assert forall|k: int| 0 <= k < rest.len() implies (#[trigger] rest[k]).wf() by {
            assert(rest[k] == declared[k]);
        }
        lemma_sorted_wf(rest);
        let before = sorted_procedures(rest);
        let after = insert_procedure(before, last);
        lemma_insert_sorted(before, last);
        let at = crate::procs::lemma_place(before, last.name);
        assert forall|k: int| 0 <= k < after.len() implies (#[trigger] after[k]).wf() by {
            assert(holds(after, after[k]));
            lemma_insert_holds(before, last, after[k]);
            if after[k] != last {
                let j = choose|j: int| 0 <= j < before.len() && before[j] == after[k];
                assert(before[j].wf());
            }
        }
    }
}

/// Every program that the grammar gives is well formed.
pub proof fn lemma_parsed_program_wf(tokens: Seq<TokenView>)
    requires
        tokens_fit(tokens),
    ensures
        spec_parse_program(tokens) matches Ok(program) ==> program.wf(),
{
    match spec_parse_program(tokens) {
        Ok(program) => {
            lemma_imports_advance(tokens, 0, Seq::empty());
            let (imports, first) = spec_parse_imports(tokens, 0, Seq::empty())->Ok_0;
            lemma_declared_wf(tokens, first, imports, false, Seq::empty());
            let (declared, begin) = spec_parse_procedures(
                tokens,
                first,
                imports,
                false,
                Seq::empty(),
            )->Ok_0;
            lemma_sorted_wf(declared);
            let ctx = ContextView { imports, procs: names_of(declared) };
            lemma_body_wf(tokens, begin + 1, ctx, Seq::empty());
        },
        Err(_) => {},
    }
}

/// Every module that the grammar gives is well formed.
pub proof fn lemma_parsed_module_wf(tokens: Seq<TokenView>)
    requires
        tokens_fit(tokens),
    ensures
        spec_parse_module(tokens) matches Ok(module) ==> module.wf(),
{
    match spec_parse_module(tokens) {
        Ok(module) => {
            lemma_imports_advance(tokens, 0, Seq::empty());
            let (imports, first) = spec_parse_imports(tokens, 0, Seq::empty())->Ok_0;
            lemma_declared_wf(tokens, first, imports, true, Seq::empty());
            let (declared, _) = spec_parse_procedures(
                tokens,
                first,
                imports,
                true,
                Seq::empty(),
            )->Ok_0;
            lemma_sorted_wf(declared);
        },
        Err(_) => {},
    }
}

/// The imports stop at or behind where they start, and inside the tokens.
pub proof fn lemma_imports_advance(tokens: Seq<TokenView>, pos: int, done: Seq<Seq<u8>>)
    requires
        0 <= pos <= tokens.len(),
    ensures
        spec_parse_imports(tokens, pos, done) matches Ok((_, next)) ==> pos <= next <= tokens.len(),
    decreases tokens.len() - pos,
{
    if pos < tokens.len() && mnemonic_is(tokens[pos], "use") {
        match crate::program::spec_import(tokens[pos]) {
            Ok(path) => {
                lemma_imports_advance(tokens, pos + 1, done.push(path));
            },
            Err(_) => {},
        }
    }
}

// ROUND TRIP
// ================================================================================================

/// The bytes of every program that a source gives are read back as that
/// program.
pub proof fn lemma_parsed_program_round_trips(source: Seq<u8>)
    requires
        source.len() <= u64::MAX,
    ensures
        spec_parse_program(spec_tokenize(source)) matches Ok(program) ==> decode_program(
            encode_program(program),
        ) == Ok::<(ProgramView, Seq<u8>), DecodeError>((program, Seq::empty())),
{
    lemma_tokens_fit(source);
    lemma_parsed_program_wf(spec_tokenize(source));
    match spec_parse_program(spec_tokenize(source)) {
        Ok(program) => {
            lemma_program_round_trip(program, Seq::empty());
            assert(encode_program(program) + Seq::<u8>::empty() =~= encode_program(program));
        },
        Err(_) => {},
    }
}

/// The bytes of every module that a source gives are read back as that
/// module.
pub proof fn lemma_parsed_module_round_trips(source: Seq<u8>)
    requires
        source.len() <= u64::MAX,
    ensures
        spec_parse_module(spec_tokenize(source)) matches Ok(module) ==> decode_module(
            encode_module(module),
        ) == Ok::<(ModuleView, Seq<u8>), DecodeError>((module, Seq::empty())),
{
    lemma_tokens_fit(source);
    lemma_parsed_module_wf(spec_tokenize(source));
    match spec_parse_module(spec_tokenize(source)) {
        Ok(module) => {
            lemma_module_round_trip(module, Seq::empty());
            assert(encode_module(module) + Seq::<u8>::empty() =~= encode_module(module));
        },
        Err(_) => {},
    }
}

} // verus!
