use crate::blocks::{
    closes_block, parse_block_end, parse_body, parse_lone, spec_block_end, spec_lone,
    spec_parse_body,
};
use crate::errors::ParsingError;
use crate::nodes::{nodes_view, Node, NodeView, ProcedureAst, ProcView};
use crate::proc_ops::{find_name, first_index, ContextView, ParserContext};
use crate::procs::{sorted_procedures, ProcMap};
use crate::text::{
    check_label, copy_range, is_label, is_label_byte, number_in_range, parse_number,
};
use crate::tokens::{
    mnemonic_is, parts_view, spec_tokenize, tokenize, tokens_view, Token, TokenView,
};
use vstd::prelude::*;
use vstd::string::*;

verus! {

/// A module: procedures, exported or private, and no body of its own.
#[derive(Debug, PartialEq, Eq)]
pub struct ModuleAst {
    pub procedures: ProcMap,
}

/// What a module is to a specification: its procedures, sorted by name.
pub struct ModuleView {
    pub procedures: Seq<ProcView>,
}

impl View for ModuleAst {
    type V = ModuleView;

    open spec fn view(&self) -> ModuleView {
        ModuleView { procedures: self.procedures@ }
    }
}

/// A program: its local procedures and the body that runs.
#[derive(Debug, PartialEq, Eq)]
pub struct ProgramAst {
    pub procedures: ProcMap,
    pub body: Vec<Node>,
}

/// What a program is to a specification: its procedures, sorted by name, and
/// its body.
pub struct ProgramView {
    pub procedures: Seq<ProcView>,
    pub body: Seq<NodeView>,
}

impl View for ProgramAst {
    type V = ProgramView;

    open spec fn view(&self) -> ProgramView {
        ProgramView { procedures: self.procedures@, body: nodes_view(self.body@) }
    }
}

// IMPORTS
// ================================================================================================

/// A path is one or more bytes, each a label byte or `:`.
pub open spec fn is_path(s: Seq<u8>) -> bool {
    s.len() > 0 && forall|i: int| 0 <= i < s.len() ==> is_label_byte(#[trigger] s[i]) || s[i] == 58
}

/// The path that `use.<path>` imports.
pub open spec fn spec_import(op: TokenView) -> Result<Seq<u8>, ParsingError> {
    if op.parts.len() < 2 {
        Err(ParsingError::MissingParam { step: op.pos })
    } else if op.parts.len() > 2 {
        Err(ParsingError::ExtraParam { step: op.pos })
    } else if !is_path(op.parts[1]) {
        Err(ParsingError::InvalidParam { step: op.pos, param: 1 })
    } else {
        Ok(op.parts[1])
    }
}

/// The paths that the run of `use` statements at `pos` imports, after the
/// paths `done`, and the position behind the run.
pub open spec fn spec_parse_imports(tokens: Seq<TokenView>, pos: int, done: Seq<Seq<u8>>) -> Result<
    (Seq<Seq<u8>>, int),
    ParsingError,
>
    decreases tokens.len() - pos,
{
    if pos < 0 || pos >= tokens.len() || !mnemonic_is(tokens[pos], "use") {
        Ok((done, pos))
    } else {
        match spec_import(tokens[pos]) {
            Err(e) => Err(e),
            Ok(path) => spec_parse_imports(tokens, pos + 1, done.push(path)),
        }
    }
}

fn check_path(s: &[u8]) -> (r: bool)
    ensures
        r == is_path(s@),
{
    if s.len() == 0 {
        return false;
    }
    let mut i: usize = 0;
    while i < s.len()
        invariant
            i <= s.len(),
            forall|j: int| 0 <= j < i ==> is_label_byte(#[trigger] s@[j]) || s@[j] == 58,
        decreases s.len() - i,
    {
        let b = s[i];
        if !((48 <= b && b <= 57) || (65 <= b && b <= 90) || (97 <= b && b <= 122) || b == 95 || b
            == 58) {
            return false;
        }
        i += 1;
    }
    true
}

/// Parses the run of `use` statements at `pos`.
pub fn parse_imports(tokens: &Vec<Token>, pos: usize) -> (r: Result<
    (Vec<Vec<u8>>, usize),
    ParsingError,
>)
    requires
        pos <= tokens@.len(),
    ensures
        match (r, spec_parse_imports(tokens_view(tokens@), pos as int, Seq::empty())) {
            (Ok((imports, next)), Ok((spec_imports, spec_next))) => parts_view(imports@)
                == spec_imports && next == spec_next && pos <= next <= tokens@.len(),
            (Err(e), Err(spec_e)) => e == spec_e,
            _ => false,
        },
{
    let mut imports: Vec<Vec<u8>> = Vec::new();
    let mut at: usize = pos;
    assert(parts_view(imports@) =~= Seq::<Seq<u8>>::empty());
    while at < tokens.len() && tokens[at].named("use")
        invariant
            pos <= at <= tokens@.len(),
            spec_parse_imports(tokens_view(tokens@), pos as int, Seq::empty())
                == spec_parse_imports(tokens_view(tokens@), at as int, parts_view(imports@)),
        decreases tokens@.len() - at,
    {
        let op = &tokens[at];
        if op.num_parts() < 2 {
            return Err(ParsingError::missing_param(op));
        }
        if op.num_parts() > 2 {
            return Err(ParsingError::extra_param(op));
        }
        if !check_path(op.part(1)) {
            return Err(ParsingError::invalid_param(op, 1));
        }
        let path = copy_range(op.part(1), 0, op.part(1).len());
        assert(path@ =~= op@.parts[1]);
        let ghost before = parts_view(imports@);
        imports.push(path);
        assert(parts_view(imports@) =~= before.push(op@.parts[1]));
        at += 1;
    }
    Ok((imports, at))
}

// PROCEDURES
// ================================================================================================

/// The name and the number of locals that the header of a procedure declares:
/// `proc.<name>` or `proc.<name>.<locals>`, and the same with `export`. The
/// name is a label, the number a decimal below 2^32, which is 0 where it is
/// left out.
pub open spec fn spec_proc_header(op: TokenView) -> Result<(Seq<u8>, u32), ParsingError> {
    if op.parts.len() < 2 {
        Err(ParsingError::MissingParam { step: op.pos })
    } else if op.parts.len() > 3 {
        Err(ParsingError::ExtraParam { step: op.pos })
    } else if !is_label(op.parts[1]) {
        Err(ParsingError::InvalidParam { step: op.pos, param: 1 })
    } else if op.parts.len() == 2 {
        Ok((op.parts[1], 0u32))
    } else {
        match number_in_range(op.parts[2], 10, 0, u32::MAX as nat) {
            Some(locals) => Ok((op.parts[1], locals as u32)),
            None => Err(ParsingError::InvalidParam { step: op.pos, param: 2 }),
        }
    }
}

/// The names of procedures, in their order.
pub open spec fn names_of(procs: Seq<ProcView>) -> Seq<Seq<u8>> {
    Seq::new(procs.len(), |i: int| procs[i].name)
}

/// The procedures that the run of declarations at `pos` declares, in the
/// order of declaration and after the procedures `done`, and the position
/// behind the run. A procedure's index is the number of procedures declared
/// before it, and its body can call those and no others. `export` opens a
/// declaration only where `allow_export` holds.
pub open spec fn spec_parse_procedures(
    tokens: Seq<TokenView>,
    pos: int,
    imports: Seq<Seq<u8>>,
    allow_export: bool,
    done: Seq<ProcView>,
) -> Result<(Seq<ProcView>, int), ParsingError>
    decreases tokens.len() - pos,
{
    if pos < 0 || pos >= tokens.len() || !(mnemonic_is(tokens[pos], "proc") || mnemonic_is(
        tokens[pos],
        "export",
    )) {
        Ok((done, pos))
    } else {
        let op = tokens[pos];
        let is_export = !mnemonic_is(op, "proc");
        if is_export && !allow_export {
            Err(ParsingError::InvalidOp { step: op.pos })
        } else {
            match spec_proc_header(op) {
                Err(e) => Err(e),
                Ok((name, num_locals)) => if first_index(names_of(done), name, 0) is Some {
                    Err(ParsingError::DuplicateProcedure { step: op.pos })
                } else if done.len() > u16::MAX {
                    Err(ParsingError::TooManyProcedures { step: op.pos })
                } else {
                    let ctx = ContextView { imports, procs: names_of(done) };
                    match spec_parse_body(tokens, pos + 1, ctx, Seq::empty()) {
                        Err(e) => Err(e),
                        Ok((body, at)) => match spec_block_end(tokens, at, op.pos) {
                            Err(e) => Err(e),
                            Ok(_) => if pos < at < tokens.len() {
                                spec_parse_procedures(
                                    tokens,
                                    at + 1,
                                    imports,
                                    allow_export,
                                    done.push(
                                        ProcView {
                                            name,
                                            is_export,
                                            num_locals,
                                            index: done.len() as u16,
                                            body,
                                        },
                                    ),
                                )
                            } else {
                                // A body starts behind its header and ends before its `end`.
                                Ok((done, pos))
                            },
                        },
                    }
                },
            }
        }
    }
}

fn parse_proc_header(op: &Token) -> (r: Result<(Vec<u8>, u32), ParsingError>)
    ensures
        match (r, spec_proc_header(op@)) {
            (Ok((name, locals)), Ok((spec_name, spec_locals))) => name@ == spec_name && locals
                == spec_locals,
            (Err(e), Err(spec_e)) => e == spec_e,
            _ => false,
        },
{
    if op.num_parts() < 2 {
        return Err(ParsingError::missing_param(op));
    }
    if op.num_parts() > 3 {
        return Err(ParsingError::extra_param(op));
    }
    if !check_label(op.part(1)) {
        return Err(ParsingError::invalid_param(op, 1));
    }
    let name = copy_range(op.part(1), 0, op.part(1).len());
    assert(name@ =~= op@.parts[1]);
    if op.num_parts() == 2 {
        return Ok((name, 0));
    }
    match parse_number(op.part(2), 10, 0, 0xFFFF_FFFF) {
        Some(locals) => Ok((name, locals as u32)),
        None => Err(ParsingError::invalid_param(op, 2)),
    }
}

/// Whether a parser of declarations gave what the specification gives.
pub open spec fn procedures_agree(
    r: Result<(ProcMap, ParserContext, usize), ParsingError>,
    spec: Result<(Seq<ProcView>, int), ParsingError>,
    imports: Seq<Seq<u8>>,
) -> bool {
    match (r, spec) {
        (Ok((procs, ctx, next)), Ok((declared, spec_next))) => procs@ == sorted_procedures(
            declared,
        ) && ctx@ == (ContextView { imports, procs: names_of(declared) }) && next == spec_next,
        (Err(e), Err(spec_e)) => e == spec_e,
        _ => false,
    }
}

/// Parses the run of procedure declarations at `pos`. Returns the procedures
/// sorted by name, the context that they and `imports` make, and the position
/// behind the run.
pub fn parse_procedures(
    tokens: &Vec<Token>,
    pos: usize,
    imports: Vec<Vec<u8>>,
    allow_export: bool,
) -> (r: Result<(ProcMap, ParserContext, usize), ParsingError>)
    requires
        pos <= tokens@.len(),
    ensures
        procedures_agree(
            r,
            spec_parse_procedures(
                tokens_view(tokens@),
                pos as int,
                parts_view(imports@),
                allow_export,
                Seq::empty(),
            ),
            parts_view(imports@),
        ),
        r matches Ok((_, _, next)) ==> pos <= next <= tokens@.len(),
{
    let ghost spec_imports = parts_view(imports@);
    let mut procs = ProcMap::new();
    let mut ctx = ParserContext { imports, procs: Vec::new() };
    let ghost mut declared: Seq<ProcView> = Seq::empty();
    let mut at: usize = pos;
    assert(parts_view(ctx.procs@) =~= names_of(declared));
    while at < tokens.len() && (tokens[at].named("proc") || tokens[at].named("export"))
        invariant
            pos <= at <= tokens@.len(),
            spec_imports == parts_view(imports@),
            spec_parse_procedures(
                tokens_view(tokens@),
                pos as int,
                spec_imports,
                allow_export,
                Seq::empty(),
            ) == spec_parse_procedures(
                tokens_view(tokens@),
                at as int,
                spec_imports,
                allow_export,
                declared,
            ),
            procs@ == sorted_procedures(declared),
            ctx@ == (ContextView { imports: spec_imports, procs: names_of(declared) }),
            ctx.procs@.len() == declared.len(),
        decreases tokens@.len() - at,
    {
        let op = &tokens[at];
        let is_export = !op.named("proc");
        if is_export && !allow_export {
            return Err(ParsingError::invalid_op(op));
        }
        let (name, num_locals) = match parse_proc_header(op) {
            Ok(header) => header,
            Err(e) => {
                return Err(e);
            },
        };
        if find_name(&ctx.procs, name.as_slice()).is_some() {
            return Err(ParsingError::DuplicateProcedure { step: op.pos() });
        }
        if ctx.procs.len() > 0xFFFF {
            return Err(ParsingError::TooManyProcedures { step: op.pos() });
        }
        let (body, end) = match parse_body(tokens, at + 1, &ctx) {
            Ok(parsed) => parsed,
            Err(e) => {
                return Err(e);
            },
        };
        match parse_block_end(tokens, end, op.pos()) {
            Ok(_) => {},
            Err(e) => {
                return Err(e);
            },
        }
        let index: u16 = ctx.procs.len() as u16;
        let key = copy_range(name.as_slice(), 0, name.len());
        assert(key@ =~= name@);
        let procedure = ProcedureAst { name, is_export, num_locals, index, body };
        let ghost before = declared;
        let ghost names_before = parts_view(ctx.procs@);
        proof {
            declared = declared.push(procedure@);
            assert(declared.drop_last() =~= before);
        }
        ctx.procs.push(key);
        assert(parts_view(ctx.procs@) =~= names_before.push(procedure@.name));
        assert(parts_view(ctx.procs@) =~= names_of(declared));
        procs.insert(procedure);
        at = end + 1;
    }
    Ok((procs, ctx, at))
}

// PROGRAMS AND MODULES
// ================================================================================================

/// What is wrong with a token where a declaration or `begin` is owed: an
/// `end` or `else` closes nothing there, and anything else is no operation of
/// the top level.
pub open spec fn misplaced(op: TokenView) -> ParsingError {
    if closes_block(op) {
        ParsingError::UnexpectedBlockClose { step: op.pos }
    } else {
        ParsingError::InvalidOp { step: op.pos }
    }
}

/// The program that tokens write: imports, then declarations of procedures,
/// none of them exported, then `begin`, the body and `end`, and nothing behind
/// it.
pub open spec fn spec_parse_program(tokens: Seq<TokenView>) -> Result<ProgramView, ParsingError> {
    match spec_parse_imports(tokens, 0, Seq::empty()) {
        Err(e) => Err(e),
        Ok((imports, first)) => match spec_parse_procedures(
            tokens,
            first,
            imports,
            false,
            Seq::empty(),
        ) {
            Err(e) => Err(e),
            Ok((declared, begin)) => if begin < 0 || begin >= tokens.len() {
                Err(ParsingError::MissingBody)
            } else if !mnemonic_is(tokens[begin], "begin") {
                Err(misplaced(tokens[begin]))
            } else {
                match spec_lone(tokens[begin]) {
                    Err(e) => Err(e),
                    Ok(_) => {
                        let ctx = ContextView { imports, procs: names_of(declared) };
                        match spec_parse_body(tokens, begin + 1, ctx, Seq::empty()) {
                            Err(e) => Err(e),
                            Ok((body, end)) => match spec_block_end(
                                tokens,
                                end,
                                tokens[begin].pos,
                            ) {
                                Err(e) => Err(e),
                                Ok(_) => if end + 1 < tokens.len() {
                                    Err(misplaced(tokens[end + 1]))
                                } else {
                                    Ok(
                                        ProgramView {
                                            procedures: sorted_procedures(declared),
                                            body,
                                        },
                                    )
                                },
                            },
                        }
                    },
                }
            },
        },
    }
}

/// The module that tokens write: imports, then declarations of procedures,
/// and nothing behind them.
pub open spec fn spec_parse_module(tokens: Seq<TokenView>) -> Result<ModuleView, ParsingError> {
    match spec_parse_imports(tokens, 0, Seq::empty()) {
        Err(e) => Err(e),
        Ok((imports, first)) => match spec_parse_procedures(
            tokens,
            first,
            imports,
            true,
            Seq::empty(),
        ) {
            Err(e) => Err(e),
            Ok((declared, end)) => if 0 <= end < tokens.len() {
                Err(misplaced(tokens[end]))
            } else {
                Ok(ModuleView { procedures: sorted_procedures(declared) })
            },
        },
    }
}

fn misplaced_token(op: &Token) -> (e: ParsingError)
    ensures
        e == misplaced(op@),
{
    if op.named("end") || op.named("else") {
        ParsingError::UnexpectedBlockClose { step: op.pos() }
    } else {
        ParsingError::invalid_op(op)
    }
}

/// Whether `parse_program` gave what the specification gives.
pub open spec fn program_agrees(
    r: Result<ProgramAst, ParsingError>,
    spec: Result<ProgramView, ParsingError>,
) -> bool {
    match (r, spec) {
        (Ok(program), Ok(view)) => program@ == view,
        (Err(e), Err(spec_e)) => e == spec_e,
        _ => false,
    }
}

/// Whether `parse_module` gave what the specification gives.
pub open spec fn module_agrees(
    r: Result<ModuleAst, ParsingError>,
    spec: Result<ModuleView, ParsingError>,
) -> bool {
    match (r, spec) {
        (Ok(module), Ok(view)) => module@ == view,
        (Err(e), Err(spec_e)) => e == spec_e,
        _ => false,
    }
}

/// Parses the tokens of a program.
pub fn parse_program_tokens(tokens: &Vec<Token>) -> (r: Result<ProgramAst, ParsingError>)
    ensures
        program_agrees(r, spec_parse_program(tokens_view(tokens@))),
{
    let total: usize = tokens.len();
    let (imports, first) = match parse_imports(tokens, 0) {
        Ok(parsed) => parsed,
        Err(e) => {
            return Err(e);
        },
    };
    let (procedures, ctx, begin) = match parse_procedures(tokens, first, imports, false) {
        Ok(parsed) => parsed,
        Err(e) => {
            return Err(e);
        },
    };
    if begin >= total {
        return Err(ParsingError::MissingBody);
    }
    let header = &tokens[begin];
    if !header.named("begin") {
        return Err(misplaced_token(header));
    }
    match parse_lone(header) {
        Ok(_) => {},
        Err(e) => {
            return Err(e);
        },
    }
    let (body, end) = match parse_body(tokens, begin + 1, &ctx) {
        Ok(parsed) => parsed,
        Err(e) => {
            return Err(e);
        },
    };
    match parse_block_end(tokens, end, header.pos()) {
        Ok(_) => {},
        Err(e) => {
            return Err(e);
        },
    }
    if end + 1 < total {
        return Err(misplaced_token(&tokens[end + 1]));
    }
    Ok(ProgramAst { procedures, body })
}

/// Parses the tokens of a module.
pub fn parse_module_tokens(tokens: &Vec<Token>) -> (r: Result<ModuleAst, ParsingError>)
    ensures
        module_agrees(r, spec_parse_module(tokens_view(tokens@))),
{
    let (imports, first) = match parse_imports(tokens, 0) {
        Ok(parsed) => parsed,
        Err(e) => {
            return Err(e);
        },
    };
    let (procedures, _, end) = match parse_procedures(tokens, first, imports, true) {
        Ok(parsed) => parsed,
        Err(e) => {
            return Err(e);
        },
    };
    if end < tokens.len() {
        return Err(misplaced_token(&tokens[end]));
    }
    Ok(ModuleAst { procedures })
}

/// Parses the source text of a program: one body between `begin` and `end`,
/// after the imports and the local procedures that it may call.
pub fn parse_program(source: &str) -> (r: Result<ProgramAst, ParsingError>)
    ensures
        program_agrees(r, spec_parse_program(spec_tokenize(source.spec_bytes()))),
{
    let tokens = tokenize(source.as_bytes());
    parse_program_tokens(&tokens)
}

/// Parses the source text of a module: imports and procedures, and no body.
pub fn parse_module(source: &str) -> (r: Result<ModuleAst, ParsingError>)
    ensures
        module_agrees(r, spec_parse_module(spec_tokenize(source.spec_bytes()))),
{
    let tokens = tokenize(source.as_bytes());
    parse_module_tokens(&tokens)
}

} // verus!
