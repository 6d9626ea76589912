use crate::errors::ParsingError;
use crate::hash::{blake3_192, digest_from, hash_192, lemma_digest_from};
use crate::nodes::{Instruction, Node};
use crate::stack_ops::as_node;
use crate::text::{check_label, is_label, is_label_byte, same_bytes};
use crate::tokens::{parts_view, Token, TokenView};
use vstd::prelude::*;
use vstd::slice::slice_subrange;

verus! {

/// What the statements before a call have declared: the paths of the imported
/// modules and the names of the local procedures, each in the order of
/// declaration. A procedure's index is its place among the names.
pub struct ParserContext {
    pub imports: Vec<Vec<u8>>,
    pub procs: Vec<Vec<u8>>,
}

/// What a context is to a specification.
pub struct ContextView {
    pub imports: Seq<Seq<u8>>,
    pub procs: Seq<Seq<u8>>,
}

impl View for ParserContext {
    type V = ContextView;

    open spec fn view(&self) -> ContextView {
        ContextView { imports: parts_view(self.imports@), procs: parts_view(self.procs@) }
    }
}

/// What the parameter of a call names.
pub enum Target {
    /// A procedure of this source, by its name.
    Local { name: Seq<u8> },
    /// A procedure of an imported module, written `module::name`.
    Imported { module: Seq<u8>, name: Seq<u8> },
}

/// The number of label bytes that `s` starts with.
pub open spec fn label_prefix_len(s: Seq<u8>) -> nat
    decreases s.len(),
{
    if s.len() > 0 && is_label_byte(s[0]) {
        1 + label_prefix_len(s.drop_first())
    } else {
        0
    }
}

/// What `s` names as the parameter of a call: a label, or two labels with
/// `::` between them. Anything else names nothing.
pub open spec fn target_of(s: Seq<u8>) -> Option<Target> {
    let k = label_prefix_len(s) as int;
    if k == 0 {
        None
    } else if k == s.len() {
        Some(Target::Local { name: s })
    } else if s.len() >= k + 2 && s[k] == 58 && s[k + 1] == 58 && is_label(
        s.subrange(k + 2, s.len() as int),
    ) {
        Some(Target::Imported { module: s.take(k), name: s.subrange(k + 2, s.len() as int) })
    } else {
        None
    }
}

/// The first index from `from` on at which `names` holds `name`.
pub open spec fn first_index(names: Seq<Seq<u8>>, name: Seq<u8>, from: int) -> Option<int>
    decreases names.len() - from,
{
    if from >= names.len() {
        None
    } else if names[from] == name {
        Some(from)
    } else {
        first_index(names, name, from + 1)
    }
}

/// Whether the import `path` brings in the module `module`: the path is the
/// module's name, or ends with `::` and the module's name.
pub open spec fn names_module(path: Seq<u8>, module: Seq<u8>) -> bool {
    path == module || {
        let at = path.len() - module.len() - 2;
        at >= 0 && path[at] == 58 && path[at + 1] == 58 && path.subrange(
            at + 2,
            path.len() as int,
        ) == module
    }
}

/// The first index from `from` on at which `imports` holds a path that brings
/// in `module`.
pub open spec fn first_import(imports: Seq<Seq<u8>>, module: Seq<u8>, from: int) -> Option<int>
    decreases imports.len() - from,
{
    if from >= imports.len() {
        None
    } else if names_module(imports[from], module) {
        Some(from)
    } else {
        first_import(imports, module, from + 1)
    }
}

/// The full name of the procedure `name` of the module imported as `path`.
pub open spec fn qualified_name(path: Seq<u8>, name: Seq<u8>) -> Seq<u8> {
    path + seq![58u8, 58u8] + name
}

/// The instruction that invokes the local procedure with index `index`.
pub open spec fn spec_local_invocation(call: bool, index: u16) -> Instruction {
    if call {
        Instruction::CallLocal(index)
    } else {
        Instruction::ExecLocal(index)
    }
}

/// The instruction that invokes the imported procedure with address `digest`.
pub open spec fn spec_imported_invocation(call: bool, digest: [u8; 24]) -> Instruction {
    if call {
        Instruction::CallImported(digest)
    } else {
        Instruction::ExecImported(digest)
    }
}

/// What `parse_invocation` returns for a statement. The one parameter names
/// the target. A local name stands for its index among the procedures
/// declared so far. `module::name` stands for the digest of the full name,
/// which is the path of the first import that brings in `module`, `::` and
/// `name`; whether that module has such a procedure is not looked into.
pub open spec fn spec_parse_invocation(op: TokenView, ctx: ContextView, call: bool) -> Result<
    Instruction,
    ParsingError,
> {
    if op.parts.len() < 2 {
        Err(ParsingError::MissingParam { step: op.pos })
    } else if op.parts.len() > 2 {
        Err(ParsingError::ExtraParam { step: op.pos })
    } else {
        match target_of(op.parts[1]) {
            None => Err(ParsingError::InvalidParam { step: op.pos, param: 1 }),
            Some(Target::Local { name }) => match first_index(ctx.procs, name, 0) {
                None => Err(ParsingError::UndeclaredProcedure { step: op.pos }),
                Some(index) => if index <= u16::MAX {
                    Ok(spec_local_invocation(call, index as u16))
                } else {
                    Err(ParsingError::TooManyProcedures { step: op.pos })
                },
            },
            Some(Target::Imported { module, name }) => match first_import(ctx.imports, module, 0) {
                None => Err(ParsingError::UndeclaredProcedure { step: op.pos }),
                Some(at) => Ok(
                    spec_imported_invocation(
                        call,
                        digest_from(blake3_192(qualified_name(ctx.imports[at], name))),
                    ),
                ),
            },
        }
    }
}

fn label_prefix(s: &[u8]) -> (k: usize)
    ensures
        k == label_prefix_len(s@),
        k <= s@.len(),
{
    let mut i: usize = 0;
    assert(s@.skip(0) =~= s@);
    while i < s.len() && (48 <= s[i] && s[i] <= 57 || 65 <= s[i] && s[i] <= 90 || 97 <= s[i]
        && s[i] <= 122 || s[i] == 95)
        invariant
            i <= s@.len(),
            label_prefix_len(s@) == i + label_prefix_len(s@.skip(i as int)),
        decreases s@.len() - i,
    {
        assert(s@.skip(i as int).drop_first() =~= s@.skip(i + 1));
        i += 1;
    }
    i
}

/// The first index at which `names` holds `name`.
pub fn find_name(names: &Vec<Vec<u8>>, name: &[u8]) -> (r: Option<usize>)
    ensures
        match r {
            Some(index) => index < names@.len() && first_index(parts_view(names@), name@, 0)
                == Some(index as int),
            None => first_index(parts_view(names@), name@, 0) is None,
        },
{
    let mut i: usize = 0;
    while i < names.len()
        invariant
            i <= names@.len(),
            first_index(parts_view(names@), name@, 0) == first_index(
                parts_view(names@),
                name@,
                i as int,
            ),
        decreases names@.len() - i,
    {
        if same_bytes(names[i].as_slice(), name) {
            return Some(i);
        }
        i += 1;
    }
    None
}

/// Whether the import `path` brings in the module `module`.
pub fn brings_in(path: &[u8], module: &[u8]) -> (r: bool)
    ensures
        r == names_module(path@, module@),
{
    if same_bytes(path, module) {
        return true;
    }
    if path.len() < 2 || path.len() - 2 < module.len() {
        return false;
    }
    let at: usize = path.len() - module.len() - 2;
    path[at] == 58 && path[at + 1] == 58 && same_bytes(
        slice_subrange(path, at + 2, path.len()),
        module,
    )
}

/// The first index at which `imports` holds a path that brings in `module`.
pub fn find_import(imports: &Vec<Vec<u8>>, module: &[u8]) -> (r: Option<usize>)
    ensures
        match r {
            Some(index) => index < imports@.len() && first_import(
                parts_view(imports@),
                module@,
                0,
            ) == Some(index as int),
            None => first_import(parts_view(imports@), module@, 0) is None,
        },
{
    let mut i: usize = 0;
    while i < imports.len()
        invariant
            i <= imports@.len(),
            first_import(parts_view(imports@), module@, 0) == first_import(
                parts_view(imports@),
                module@,
                i as int,
            ),
        decreases imports@.len() - i,
    {
        if brings_in(imports[i].as_slice(), module) {
            return Some(i);
        }
        i += 1;
    }
    None
}

/// The full name of the procedure `name` of the module imported as `path`.
pub fn join_path(path: &[u8], name: &[u8]) -> (r: Vec<u8>)
    ensures
        r@ == qualified_name(path@, name@),
{
    let mut out: Vec<u8> = Vec::new();
    let mut i: usize = 0;
    while i < path.len()
        invariant
            i <= path@.len(),
            out@ == path@.take(i as int),
        decreases path@.len() - i,
    {
        out.push(path[i]);
        assert(out@ =~= path@.take(i + 1));
        i += 1;
    }
    out.push(58);
    out.push(58);
    let mut j: usize = 0;
    assert(path@.take(path@.len() as int) =~= path@);
    assert(out@ =~= path@ + seq![58u8, 58u8] + name@.take(0));
    while j < name.len()
        invariant
            j <= name@.len(),
            out@ == path@ + seq![58u8, 58u8] + name@.take(j as int),
        decreases name@.len() - j,
    {
        out.push(name[j]);
        assert(out@ =~= path@ + seq![58u8, 58u8] + name@.take(j + 1));
        j += 1;
    }
    assert(name@.take(name@.len() as int) =~= name@);
    out
}

/// The instruction that invokes the local procedure with index `index`.
pub fn local_invocation(call: bool, index: u16) -> (r: Instruction)
    ensures
        r == spec_local_invocation(call, index),
{
    if call {
        Instruction::CallLocal(index)
    } else {
        Instruction::ExecLocal(index)
    }
}

/// The instruction that invokes the imported procedure with address `digest`.
pub fn imported_invocation(call: bool, digest: [u8; 24]) -> (r: Instruction)
    ensures
        r == spec_imported_invocation(call, digest),
{
    if call {
        Instruction::CallImported(digest)
    } else {
        Instruction::ExecImported(digest)
    }
}

/// Parses `exec.<target>`, or `call.<target>` where `call` is set.
pub fn parse_invocation(op: &Token, ctx: &ParserContext, call: bool) -> (r: Result<
    Node,
    ParsingError,
>)
    ensures
        r == as_node(spec_parse_invocation(op@, ctx@, call)),
{
    if op.num_parts() < 2 {
        return Err(ParsingError::missing_param(op));
    }
    if op.num_parts() > 2 {
        return Err(ParsingError::extra_param(op));
    }
    let target = op.part(1);
    let k = label_prefix(target);
    if k == 0 {
        return Err(ParsingError::invalid_param(op, 1));
    }
    if k == target.len() {
        return match find_name(&ctx.procs, target) {
            None => Err(ParsingError::UndeclaredProcedure { step: op.pos() }),
            Some(index) => if index <= 0xFFFF {
                Ok(Node::Instruction(local_invocation(call, index as u16)))
            } else {
                Err(ParsingError::TooManyProcedures { step: op.pos() })
            },
        };
    }
    if target.len() - k < 2 || target[k] != 58 || target[k + 1] != 58 {
        return Err(ParsingError::invalid_param(op, 1));
    }
    let name = slice_subrange(target, k + 2, target.len());
    if !check_label(name) {
        return Err(ParsingError::invalid_param(op, 1));
    }
    let module = slice_subrange(target, 0, k);
    assert(module@ =~= target@.take(k as int));
    match find_import(&ctx.imports, module) {
        None => Err(ParsingError::UndeclaredProcedure { step: op.pos() }),
        Some(at) => {
            let full = join_path(ctx.imports[at].as_slice(), name);
            let digest = hash_192(full.as_slice());
            proof {
                lemma_digest_from(digest);
            }
            Ok(Node::Instruction(imported_invocation(call, digest)))
        },
    }
}

} // verus!
