use crate::adv_ops::{plain_injector, spec_parse_adv_inject};
use crate::blocks::{spec_condition, spec_lone, spec_repeat_count};
use crate::errors::ParsingError;
use crate::felt::{felt, Felt, MODULUS};
use crate::format::encode_program;
use crate::io_ops::{
    constants_from, element_value, spec_parse_loc_load, spec_parse_loc_store, spec_parse_push,
};
use crate::nodes::{AdviceInjectorNode, Instruction, InstructionView, ProcView};
use crate::plain_ops::{plain_instruction, spec_parse_plain};
use crate::proc_ops::{spec_parse_invocation, ContextView};
use crate::procs::{insert_procedure, lemma_insert_sorted, lemma_place, sorted_by_name};
use crate::program::{spec_import, spec_proc_header, ProgramView};
use crate::stack_ops::{
    dup_at, dupw_at, movdn_at, movdnw_at, movup_at, movupw_at, spec_parse_dup, spec_parse_dupw,
    spec_parse_movdn, spec_parse_movdnw, spec_parse_movup, spec_parse_movupw, spec_parse_swap,
    spec_parse_swapw, swap_at, swapw_at,
};
use crate::text::{
    depth_literal, is_label, lemma_precedes_irreflexive, lemma_precedes_total, number_value,
    precedes, text,
};
use crate::tokens::TokenView;
use vstd::prelude::*;
use vstd::string::*;

verus! {

// ARITY
// ================================================================================================

/// A depth selector takes no parameter or one: without its mnemonic the
/// statement misses a part, and with two parameters it has one too many.
pub proof fn lemma_arity_depth_optional(op: TokenView)
    ensures
        op.parts.len() == 0 ==> {
            let missing = Err::<Instruction, ParsingError>(
                ParsingError::MissingParam { step: op.pos },
            );
            &&& spec_parse_dup(op) == missing
            &&& spec_parse_dupw(op) == missing
            &&& spec_parse_swap(op) == missing
            &&& spec_parse_swapw(op) == missing
            &&& spec_parse_movup(op) == missing
            &&& spec_parse_movdn(op) == missing
            &&& spec_parse_movupw(op) == missing
            &&& spec_parse_movdnw(op) == missing
        },
        op.parts.len() == 3 ==> {
            let extra = Err::<Instruction, ParsingError>(ParsingError::ExtraParam { step: op.pos });
            &&& spec_parse_dup(op) == extra
            &&& spec_parse_dupw(op) == extra
            &&& spec_parse_swap(op) == extra
            &&& spec_parse_swapw(op) == extra
            &&& spec_parse_movup(op) == extra
            &&& spec_parse_movdn(op) == extra
            &&& spec_parse_movupw(op) == extra
            &&& spec_parse_movdnw(op) == extra
        },
{
}

/// The mnemonic of a depth selector alone stands for the instruction of the
/// family's least legal depth.
pub proof fn lemma_default_depth(op: TokenView)
    requires
        op.parts.len() == 1,
    ensures
        spec_parse_dup(op) == Ok::<Instruction, ParsingError>(Instruction::Dup0),
        spec_parse_dupw(op) == Ok::<Instruction, ParsingError>(Instruction::DupW0),
        spec_parse_swap(op) == Ok::<Instruction, ParsingError>(Instruction::Swap),
        spec_parse_swapw(op) == Ok::<Instruction, ParsingError>(Instruction::SwapW),
        spec_parse_movup(op) == Ok::<Instruction, ParsingError>(Instruction::MovUp2),
        spec_parse_movdn(op) == Ok::<Instruction, ParsingError>(Instruction::MovDn2),
        spec_parse_movupw(op) == Ok::<Instruction, ParsingError>(Instruction::MovUpW2),
        spec_parse_movdnw(op) == Ok::<Instruction, ParsingError>(Instruction::MovDnW2),
{
}

/// `insert_hdword` is the name of none of the injectors without a parameter.
pub proof fn lemma_insert_hdword_is_not_plain()
    ensures
        plain_injector(text("insert_hdword")) is None,
{
    reveal_strlit("insert_hdword");
    reveal_strlit("push_u64div");
    reveal_strlit("push_ext2intt");
    reveal_strlit("push_smtget");
    reveal_strlit("push_mapval");
    reveal_strlit("push_mtnode");
    reveal_strlit("insert_mem");
    is_ascii_spec_bytes("insert_hdword");
    is_ascii_spec_bytes("push_ext2intt");
    is_ascii_spec_bytes("push_u64div");
    is_ascii_spec_bytes("push_smtget");
    is_ascii_spec_bytes("push_mapval");
    is_ascii_spec_bytes("push_mtnode");
    is_ascii_spec_bytes("insert_mem");
    assert(text("insert_hdword")[0] == 105u8);
    assert(text("push_ext2intt")[0] == 112u8);
}

/// An advice injection needs the name of its injector. An injector without a
/// parameter takes none, and `insert_hdword` takes one at most.
pub proof fn lemma_arity_adv_inject(op: TokenView)
    ensures
        op.parts.len() == 1 ==> spec_parse_adv_inject(op) == Err::<Instruction, ParsingError>(
            ParsingError::MissingParam { step: op.pos },
        ),
        op.parts.len() == 3 && plain_injector(op.parts[1]) is Some ==> spec_parse_adv_inject(op)
            == Err::<Instruction, ParsingError>(ParsingError::ExtraParam { step: op.pos }),
        op.parts.len() == 4 && op.parts[1] == text("insert_hdword") ==> spec_parse_adv_inject(op)
            == Err::<Instruction, ParsingError>(ParsingError::ExtraParam { step: op.pos }),
{
    lemma_insert_hdword_is_not_plain();
}

/// `push` takes 1 to 16 constants, `loc_load`, `loc_store`, `exec` and `call`
/// exactly one parameter, and an operation without parameters none.
pub proof fn lemma_arity_instructions(op: TokenView, ctx: ContextView, call: bool)
    ensures
        op.parts.len() == 1 ==> {
            &&& spec_parse_push(op) is Err && spec_parse_push(op)->Err_0 == (
            ParsingError::MissingParam { step: op.pos })
            &&& spec_parse_loc_load(op) == Err::<Instruction, ParsingError>(
                ParsingError::MissingParam { step: op.pos },
            )
            &&& spec_parse_loc_store(op) == Err::<Instruction, ParsingError>(
                ParsingError::MissingParam { step: op.pos },
            )
            &&& spec_parse_invocation(op, ctx, call) == Err::<Instruction, ParsingError>(
                ParsingError::MissingParam { step: op.pos },
            )
        },
        op.parts.len() == 18 ==> spec_parse_push(op) is Err && spec_parse_push(op)->Err_0 == (
        ParsingError::ExtraParam { step: op.pos }),
        op.parts.len() == 3 ==> {
            &&& spec_parse_loc_load(op) == Err::<Instruction, ParsingError>(
                ParsingError::ExtraParam { step: op.pos },
            )
            &&& spec_parse_loc_store(op) == Err::<Instruction, ParsingError>(
                ParsingError::ExtraParam { step: op.pos },
            )
            &&& spec_parse_invocation(op, ctx, call) == Err::<Instruction, ParsingError>(
                ParsingError::ExtraParam { step: op.pos },
            )
        },
        op.parts.len() == 0 ==> spec_parse_plain(op) == Err::<Instruction, ParsingError>(
            ParsingError::MissingParam { step: op.pos },
        ),
        op.parts.len() == 2 && plain_instruction(op.parts[0]) is Some ==> spec_parse_plain(op)
            == Err::<Instruction, ParsingError>(ParsingError::ExtraParam { step: op.pos }),
{
}

/// The headers of blocks and the declarations: `if`, `while`, `repeat` and
/// `use` take exactly one parameter, `proc` and `export` one or two, and
/// `begin`, `else` and `end` none.
pub proof fn lemma_arity_keywords(op: TokenView)
    ensures
        op.parts.len() == 1 ==> {
            &&& spec_condition(op) == Err::<(), ParsingError>(
                ParsingError::MissingParam { step: op.pos },
            )
            &&& spec_repeat_count(op) == Err::<u32, ParsingError>(
                ParsingError::MissingParam { step: op.pos },
            )
            &&& spec_import(op) == Err::<Seq<u8>, ParsingError>(
                ParsingError::MissingParam { step: op.pos },
            )
            &&& spec_proc_header(op) == Err::<(Seq<u8>, u32), ParsingError>(
                ParsingError::MissingParam { step: op.pos },
            )
        },
        op.parts.len() == 3 ==> {
            &&& spec_condition(op) == Err::<(), ParsingError>(
                ParsingError::ExtraParam { step: op.pos },
            )
            &&& spec_repeat_count(op) == Err::<u32, ParsingError>(
                ParsingError::ExtraParam { step: op.pos },
            )
            &&& spec_import(op) == Err::<Seq<u8>, ParsingError>(
                ParsingError::ExtraParam { step: op.pos },
            )
        },
        op.parts.len() == 4 ==> spec_proc_header(op) == Err::<(Seq<u8>, u32), ParsingError>(
            ParsingError::ExtraParam { step: op.pos },
        ),
        op.parts.len() == 2 ==> spec_lone(op) == Err::<(), ParsingError>(
            ParsingError::ExtraParam { step: op.pos },
        ),
{
}

// RANGES
// ================================================================================================

/// What a depth selector makes of a parameter that is the literal of `depth`:
/// the instruction of that depth from the family's least depth to its
/// greatest, both included, and an invalid parameter at any other depth. A
/// parameter that is no literal is invalid too.
pub proof fn lemma_range_depth(op: TokenView)
    requires
        op.parts.len() == 2,
    ensures
        match depth_literal(op.parts[1]) {
            Some(depth) => {
                let invalid = Err::<Instruction, ParsingError>(
                    ParsingError::InvalidParam { step: op.pos, param: 1 },
                );
                &&& spec_parse_dup(op) == if depth <= 15 {
                    Ok(dup_at(depth)->Some_0)
                } else {
                    invalid
                }
                &&& spec_parse_dupw(op) == if depth <= 3 {
                    Ok(dupw_at(depth)->Some_0)
                } else {
                    invalid
                }
                &&& spec_parse_swap(op) == if 1 <= depth <= 15 {
                    Ok(swap_at(depth)->Some_0)
                } else {
                    invalid
                }
                &&& spec_parse_swapw(op) == if 1 <= depth <= 3 {
                    Ok(swapw_at(depth)->Some_0)
                } else {
                    invalid
                }
                &&& spec_parse_movup(op) == if 2 <= depth <= 15 {
                    Ok(movup_at(depth)->Some_0)
                } else {
                    invalid
                }
                &&& spec_parse_movdn(op) == if 2 <= depth <= 15 {
                    Ok(movdn_at(depth)->Some_0)
                } else {
                    invalid
                }
                &&& spec_parse_movupw(op) == if 2 <= depth <= 3 {
                    Ok(movupw_at(depth)->Some_0)
                } else {
                    invalid
                }
                &&& spec_parse_movdnw(op) == if 2 <= depth <= 3 {
                    Ok(movdnw_at(depth)->Some_0)
                } else {
                    invalid
                }
            },
            None => {
                let invalid = Err::<Instruction, ParsingError>(
                    ParsingError::InvalidParam { step: op.pos, param: 1 },
                );
                &&& spec_parse_dup(op) == invalid
                &&& spec_parse_dupw(op) == invalid
                &&& spec_parse_swap(op) == invalid
                &&& spec_parse_swapw(op) == invalid
                &&& spec_parse_movup(op) == invalid
                &&& spec_parse_movdn(op) == invalid
                &&& spec_parse_movupw(op) == invalid
                &&& spec_parse_movdnw(op) == invalid
            },
        },
{
}

/// What `insert_hdword` makes of a parameter that writes the number `value`:
/// the domain `value` from 0 to 255, both included, and an invalid parameter
/// above. A parameter that writes no number is invalid too.
pub proof fn lemma_range_domain(op: TokenView)
    requires
        op.parts.len() == 3,
        op.parts[1] == text("insert_hdword"),
    ensures
        spec_parse_adv_inject(op) == match number_value(op.parts[2], 10) {
            Some(value) => if value <= 255 {
                Ok(Instruction::AdvInject(AdviceInjectorNode::InsertHdword { domain: value as u8 }))
            } else {
                Err(ParsingError::InvalidParam { step: op.pos, param: 2 })
            },
            None => Err(ParsingError::InvalidParam { step: op.pos, param: 2 }),
        },
{
    lemma_insert_hdword_is_not_plain();
}

/// What `repeat` makes of a parameter that writes the number `value`: the
/// count `value` from 1 to 2^32 - 1, both included, and an invalid parameter
/// at 0 and from 2^32 on. A parameter that writes no number is invalid too.
pub proof fn lemma_range_repeat(op: TokenView)
    requires
        op.parts.len() == 2,
    ensures
        spec_repeat_count(op) == match number_value(op.parts[1], 10) {
            Some(value) => if 1 <= value <= 0xFFFF_FFFF {
                Ok(value as u32)
            } else {
                Err(ParsingError::InvalidParam { step: op.pos, param: 1 })
            },
            None => Err(ParsingError::InvalidParam { step: op.pos, param: 1 }),
        },
{
}

/// A text that writes a decimal number is a field element exactly if the
/// number is below the modulus, and is then the element of that number. A
/// text that is neither a decimal number nor `0x` and a hexadecimal one is no
/// field element.
pub proof fn lemma_range_element(s: Seq<u8>)
    ensures
        number_value(s, 10) matches Some(value) ==> element_value(s) == if value < MODULUS {
            Some(value as u64)
        } else {
            None
        },
        number_value(s, 10) is None && !(s.len() >= 2 && s[0] == 48 && s[1] == 120)
            ==> element_value(s) is None,
{
    if number_value(s, 10) is Some && s.len() >= 2 && s[0] == 48 {
        assert(crate::text::digit_value(s[1], 10) is Some);
    }
}

/// What `loc_load` and `loc_store` make of a parameter: the instruction with
/// the field element that it writes, and an invalid parameter where it
/// writes none.
pub proof fn lemma_range_local(op: TokenView)
    requires
        op.parts.len() == 2,
    ensures
        spec_parse_loc_load(op) == match element_value(op.parts[1]) {
            Some(value) => Ok(Instruction::LocLoad(felt(value))),
            None => Err(ParsingError::InvalidParam { step: op.pos, param: 1 }),
        },
        spec_parse_loc_store(op) == match element_value(op.parts[1]) {
            Some(value) => Ok(Instruction::LocStore(felt(value))),
            None => Err(ParsingError::InvalidParam { step: op.pos, param: 1 }),
        },
{
}

/// What `push` makes of a single parameter: the list of the one field
/// element that it writes, and an invalid parameter where it writes none.
pub proof fn lemma_range_push(op: TokenView)
    requires
        op.parts.len() == 2,
    ensures
        match element_value(op.parts[1]) {
            Some(value) => spec_parse_push(op) == Ok::<InstructionView, ParsingError>(
                InstructionView::Constants(seq![felt(value)]),
            ),
            None => spec_parse_push(op) == Err::<InstructionView, ParsingError>(
                ParsingError::InvalidParam { step: op.pos, param: 1 },
            ),
        },
{
    reveal_with_fuel(constants_from, 3);
    match element_value(op.parts[1]) {
        Some(value) => {
            assert(Seq::<Felt>::empty().push(felt(value)) =~= seq![felt(value)]);
        },
        None => {},
    }
}

/// What a declaration makes of a second parameter that writes the number
/// `value`: `value` locals from 0 to 2^32 - 1, both included, and an invalid
/// parameter from 2^32 on. A parameter that writes no number is invalid too.
pub proof fn lemma_range_locals(op: TokenView)
    requires
        op.parts.len() == 3,
        is_label(op.parts[1]),
    ensures
        spec_proc_header(op) == match number_value(op.parts[2], 10) {
            Some(value) => if value <= 0xFFFF_FFFF {
                Ok((op.parts[1], value as u32))
            } else {
                Err(ParsingError::InvalidParam { step: op.pos, param: 2 })
            },
            None => Err(ParsingError::InvalidParam { step: op.pos, param: 2 }),
        },
{
}

// DETERMINISM
// ================================================================================================

/// The procedures that `procs` holds: `p` is among them.
pub open spec fn holds(procs: Seq<ProcView>, p: ProcView) -> bool {
    exists|i: int| 0 <= i < procs.len() && procs[i] == p
}

/// Sorted procedures are determined by what they hold: two sequences sorted
/// by name that hold the same procedures are the same sequence.
pub proof fn lemma_sorted_determined(a: Seq<ProcView>, b: Seq<ProcView>)
    requires
        sorted_by_name(a),
        sorted_by_name(b),
        forall|p: ProcView| holds(a, p) <==> holds(b, p),
    ensures
        a == b,
    decreases a.len(),
{
    if a.len() == 0 {
        if b.len() > 0 {
            assert(holds(b, b[0]));
            assert(holds(a, b[0]));
        }
        assert(a =~= b);
    } else {
        let la = a.last();
        assert(holds(a, la));
        assert(holds(b, la));
        let k = choose|k: int| 0 <= k < b.len() && b[k] == la;
        let lb = b.last();
        assert(holds(b, lb));
        assert(holds(a, lb));
        let m = choose|m: int| 0 <= m < a.len() && a[m] == lb;
        lemma_precedes_irreflexive(la.name);
        if k < b.len() - 1 {
            assert(precedes(b[k].name, b[b.len() - 1].name));
            if m < a.len() - 1 {
                assert(precedes(a[m].name, a[a.len() - 1].name));
                lemma_precedes_total(la.name, lb.name);
            }
            assert(false);
        }
        assert(la == lb);
        let ra = a.drop_last();
        let rb = b.drop_last();
        assert forall|p: ProcView| holds(ra, p) <==> holds(rb, p) by {
            if holds(ra, p) {
                let i = choose|i: int| 0 <= i < ra.len() && ra[i] == p;
                assert(a[i] == p);
                assert(precedes(a[i].name, a[a.len() - 1].name));
                assert(holds(a, p));
                assert(holds(b, p));
                let j = choose|j: int| 0 <= j < b.len() && b[j] == p;
                assert(j < b.len() - 1);
                assert(rb[j] == p);
            }
            if holds(rb, p) {
                let i = choose|i: int| 0 <= i < rb.len() && rb[i] == p;
                assert(b[i] == p);
                assert(precedes(b[i].name, b[b.len() - 1].name));
                assert(holds(b, p));
                assert(holds(a, p));
                let j = choose|j: int| 0 <= j < a.len() && a[j] == p;
                assert(j < a.len() - 1);
                assert(ra[j] == p);
            }
        }
        lemma_sorted_determined(ra, rb);
        assert(a =~= ra.push(la));
        assert(b =~= rb.push(lb));
    }
}

/// What sorted procedures hold once `p` is put in: `p`, and every procedure
/// that they held under another name.
pub proof fn lemma_insert_holds(procs: Seq<ProcView>, p: ProcView, q: ProcView)
    requires
        sorted_by_name(procs),
    ensures
        holds(insert_procedure(procs, p), q) <==> q == p || (holds(procs, q) && q.name != p.name),
{
    let at = lemma_place(procs, p.name);
    let out = insert_procedure(procs, p);
    lemma_precedes_irreflexive(p.name);
    let replaces = at < procs.len() && procs[at].name == p.name;
    if holds(out, q) {
        let i = choose|i: int| 0 <= i < out.len() && out[i] == q;
        if replaces {
            if i != at {
                assert(procs[i] == q);
            }
        } else {
            if i < at {
                assert(procs[i] == q);
            } else if i > at {
                assert(procs[i - 1] == q);
                assert(procs[i - 1].name == p.name || precedes(p.name, procs[i - 1].name));
            }
        }
    }
    if q == p {
        assert(out[at] == p);
    }
    if holds(procs, q) && q.name != p.name {
        let i = choose|i: int| 0 <= i < procs.len() && procs[i] == q;
        if replaces {
            assert(out[i] == q);
        } else {
            if i < at {
                assert(out[i] == q);
            } else {
                assert(out[i + 1] == q);
            }
        }
    }
}

/// The order in which two procedures of different names are put in does not
/// show in the result.
pub proof fn lemma_insert_commutes(procs: Seq<ProcView>, p: ProcView, q: ProcView)
    requires
        sorted_by_name(procs),
        p.name != q.name,
    ensures
        insert_procedure(insert_procedure(procs, p), q) == insert_procedure(
            insert_procedure(procs, q),
            p,
        ),
{
    let with_p = insert_procedure(procs, p);
    let with_q = insert_procedure(procs, q);
    lemma_insert_sorted(procs, p);
    lemma_insert_sorted(procs, q);
    lemma_insert_sorted(with_p, q);
    lemma_insert_sorted(with_q, p);
    let pq = insert_procedure(with_p, q);
    let qp = insert_procedure(with_q, p);
    assert forall|x: ProcView| holds(pq, x) <==> holds(qp, x) by {
        lemma_insert_holds(with_p, q, x);
        lemma_insert_holds(procs, p, x);
        lemma_insert_holds(with_q, p, x);
        lemma_insert_holds(procs, q, x);
    }
    lemma_sorted_determined(pq, qp);
}

/// Two well-formed programs that hold the same procedures and have the same
/// body have the same bytes, in whatever order their procedures were put in.
pub proof fn lemma_encoding_deterministic(a: ProgramView, b: ProgramView)
    requires
        a.wf(),
        b.wf(),
        a.body == b.body,
        forall|p: ProcView| holds(a.procedures, p) <==> holds(b.procedures, p),
    ensures
        encode_program(a) == encode_program(b),
{
    lemma_sorted_determined(a.procedures, b.procedures);
}

} // verus!
