use crate::nodes::{ProcedureAst, ProcView};
use crate::text::{
    comes_before, lemma_precedes_irreflexive, lemma_precedes_total, lemma_precedes_transitive,
    precedes, same_bytes,
};
use vstd::prelude::*;

verus! {

/// The models of a sequence of procedures.
pub open spec fn procedures_view(procs: Seq<ProcedureAst>) -> Seq<ProcView> {
    Seq::new(procs.len(), |i: int| procs[i]@)
}

/// Each procedure's name comes strictly before the next one's, so no name
/// occurs twice.
pub open spec fn sorted_by_name(procs: Seq<ProcView>) -> bool {
    forall|i: int, j: int|
        0 <= i < j < procs.len() ==> precedes(#[trigger] procs[i].name, #[trigger] procs[j].name)
}

/// The number of procedures whose name comes before `name`.
pub open spec fn count_below(procs: Seq<ProcView>, name: Seq<u8>) -> nat
    decreases procs.len(),
{
    if procs.len() == 0 {
        0
    } else {
        count_below(procs.drop_last(), name) + if precedes(procs.last().name, name) {
            1nat
        } else {
            0nat
        }
    }
}

/// The sorted procedures `procs` with `p` put in at its place, where it
/// replaces the procedure of the same name if there is one.
pub open spec fn insert_procedure(procs: Seq<ProcView>, p: ProcView) -> Seq<
    ProcView,
> {
    let at = count_below(procs, p.name) as int;
    if at < procs.len() && procs[at].name == p.name {
        procs.update(at, p)
    } else {
        procs.insert(at, p)
    }
}

/// The procedures `declared`, sorted by name. Of two with one name the later
/// one stays.
pub open spec fn sorted_procedures(declared: Seq<ProcView>) -> Seq<ProcView>
    decreases declared.len(),
{
    if declared.len() == 0 {
        Seq::empty()
    } else {
        insert_procedure(sorted_procedures(declared.drop_last()), declared.last())
    }
}

/// In sorted procedures, the names before index `at` come before `name` and
/// no other does, exactly if `at` names come before `name`.
pub proof fn lemma_count_below(procs: Seq<ProcView>, name: Seq<u8>, at: int)
    requires
        sorted_by_name(procs),
        0 <= at <= procs.len(),
        forall|j: int| 0 <= j < at ==> precedes(#[trigger] procs[j].name, name),
        at < procs.len() ==> !precedes(procs[at].name, name),
    ensures
        count_below(procs, name) == at,
    decreases procs.len(),
{
    if procs.len() > 0 {
        let rest = procs.drop_last();
        let last = procs.len() - 1;
        if at == procs.len() {
            lemma_count_below(rest, name, at - 1);
        } else {
            if at < last {
                if precedes(procs[last].name, name) {
                    assert(precedes(procs[at].name, procs[last].name));
                    lemma_precedes_transitive(procs[at].name, procs[last].name, name);
                }
            }
            lemma_count_below(rest, name, at);
        }
    }
}

/// Putting a procedure into sorted procedures leaves them sorted.
pub proof fn lemma_insert_sorted(procs: Seq<ProcView>, p: ProcView)
    requires
        sorted_by_name(procs),
    ensures
        sorted_by_name(insert_procedure(procs, p)),
{
    let at = lemma_place(procs, p.name);
    let out = insert_procedure(procs, p);
    assert forall|i: int, j: int| 0 <= i < j < out.len() implies precedes(
        #[trigger] out[i].name,
        #[trigger] out[j].name,
    ) by {
        lemma_new_order(procs, p, at, i, j);
    }
}

/// The place of `name` in sorted procedures: the names before it come before
/// `name`, and `name` is the name there or comes before it.
pub proof fn lemma_place(procs: Seq<ProcView>, name: Seq<u8>) -> (at: int)
    requires
        sorted_by_name(procs),
    ensures
        at == count_below(procs, name),
        0 <= at <= procs.len(),
        forall|j: int| 0 <= j < at ==> precedes(#[trigger] procs[j].name, name),
        forall|j: int|
            at <= j < procs.len() ==> (#[trigger] procs[j].name) == name || precedes(
                name,
                procs[j].name,
            ),
        forall|j: int| at < j < procs.len() ==> precedes(name, #[trigger] procs[j].name),
    decreases procs.len(),
{
    if procs.len() == 0 {
        0
    } else {
        let rest = procs.drop_last();
        let last = procs.len() - 1;
        let at = lemma_place(rest, name);
        lemma_precedes_total(procs[last].name, name);
        if precedes(procs[last].name, name) {
            assert forall|j: int| 0 <= j < procs.len() implies precedes(
                #[trigger] procs[j].name,
                name,
            ) by {
                if j < last {
                    assert(precedes(procs[j].name, procs[last].name));
                    lemma_precedes_transitive(procs[j].name, procs[last].name, name);
                }
            }
            if at < last {
                assert(rest[at].name == procs[at].name);
                lemma_precedes_irreflexive(name);
                lemma_precedes_total(procs[at].name, name);
            }
            procs.len() as int
        } else {
            assert forall|j: int| at < j < procs.len() implies precedes(
                name,
                #[trigger] procs[j].name,
            ) by {
                if j < last {
                    assert(rest[j].name == procs[j].name);
                } else {
                    assert(precedes(procs[at].name, procs[last].name));
                    assert(rest[at].name == procs[at].name);
                    if procs[at].name != name {
                        lemma_precedes_transitive(name, procs[at].name, procs[last].name);
                    }
                }
            }
            assert forall|j: int| at <= j < procs.len() implies (#[trigger] procs[j].name) == name
                || precedes(name, procs[j].name) by {
                if j < last {
                    assert(rest[j].name == procs[j].name);
                }
            }
            assert forall|j: int| 0 <= j < at implies precedes(#[trigger] procs[j].name, name) by {
                assert(rest[j].name == procs[j].name);
            }
            at
        }
    }
}

proof fn lemma_new_order(procs: Seq<ProcView>, p: ProcView, at: int, i: int, j: int)
    requires
        sorted_by_name(procs),
        at == count_below(procs, p.name),
        0 <= at <= procs.len(),
        forall|k: int| 0 <= k < at ==> precedes(#[trigger] procs[k].name, p.name),
        forall|k: int|
            at <= k < procs.len() ==> (#[trigger] procs[k].name) == p.name || precedes(
                p.name,
                procs[k].name,
            ),
        forall|k: int| at < k < procs.len() ==> precedes(p.name, #[trigger] procs[k].name),
        0 <= i < j < insert_procedure(procs, p).len(),
    ensures
        precedes(insert_procedure(procs, p)[i].name, insert_procedure(procs, p)[j].name),
{
    let out = insert_procedure(procs, p);
    if at < procs.len() && procs[at].name == p.name {
        assert(out[i].name == procs[i].name);
        assert(out[j].name == procs[j].name);
        assert(precedes(procs[i].name, procs[j].name));
    } else {
        if j < at {
            assert(precedes(procs[i].name, procs[j].name));
        } else if j == at {
            assert(precedes(procs[i].name, p.name));
        } else if i == at {
            assert(out[j] == procs[j - 1]);
            assert(procs[j - 1].name == p.name || precedes(p.name, procs[j - 1].name));
        } else if i > at {
            assert(out[i] == procs[i - 1]);
            assert(out[j] == procs[j - 1]);
            assert(precedes(procs[i - 1].name, procs[j - 1].name));
        } else {
            assert(out[j] == procs[j - 1]);
            assert(out[i] == procs[i]);
            if i == j - 1 {
                assert(precedes(procs[i].name, p.name));
                assert(procs[j - 1].name == p.name || precedes(p.name, procs[j - 1].name));
            } else {
                assert(precedes(procs[i].name, procs[j - 1].name));
            }
        }
    }
}

/// The procedures of a module or program, kept sorted by name, each name once.
#[derive(Debug, PartialEq, Eq)]
pub struct ProcMap {
    procs: Vec<ProcedureAst>,
}

impl View for ProcMap {
    type V = Seq<ProcView>;

    closed spec fn view(&self) -> Seq<ProcView> {
        procedures_view(self.procs@)
    }
}

impl ProcMap {
    #[verifier::type_invariant]
    spec fn sorted(self) -> bool {
        sorted_by_name(self@)
    }

    /// No procedures.
    pub fn new() -> (r: ProcMap)
        ensures
            r@ == Seq::<ProcView>::empty(),
    {
        let r = ProcMap { procs: Vec::new() };
        assert(r@ =~= Seq::<ProcView>::empty());
        r
    }

    /// The map that holds procedures which are sorted by name.
    pub(crate) fn from_sorted(procs: Vec<ProcedureAst>) -> (r: ProcMap)
        requires
            sorted_by_name(procedures_view(procs@)),
        ensures
            r@ == procedures_view(procs@),
    {
        ProcMap { procs }
    }

    /// The number of procedures.
    pub fn len(&self) -> (r: usize)
        ensures
            r == self@.len(),
            sorted_by_name(self@),
    {
        proof {
            use_type_invariant(self);
        }
        self.procs.len()
    }

    /// The procedures, sorted by name.
    pub fn procedures(&self) -> (r: &Vec<ProcedureAst>)
        ensures
            procedures_view(r@) == self@,
            sorted_by_name(self@),
    {
        proof {
            use_type_invariant(self);
        }
        &self.procs
    }

    fn place(&self, name: &[u8]) -> (at: usize)
        ensures
            at == count_below(self@, name@),
            at <= self@.len(),
            sorted_by_name(self@),
    {
        proof {
            use_type_invariant(self);
        }
        let mut i: usize = 0;
        while i < self.procs.len() && comes_before(self.procs[i].name.as_slice(), name)
            invariant
                i <= self.procs@.len(),
                self@ == procedures_view(self.procs@),
                forall|j: int| 0 <= j < i ==> precedes(#[trigger] self@[j].name, name@),
            decreases self.procs@.len() - i,
        {
            i += 1;
        }
        proof {
            lemma_count_below(self@, name@, i as int);
        }
        i
    }

    /// The procedure named `name`, if there is one.
    pub fn get(&self, name: &[u8]) -> (r: Option<&ProcedureAst>)
        ensures
            match r {
                Some(p) => p@.name == name@ && self@.contains(p@),
                None => forall|i: int| 0 <= i < self@.len() ==> (#[trigger] self@[i]).name != name@,
            },
    {
        let at = self.place(name);
        if at < self.procs.len() && same_bytes(self.procs[at].name.as_slice(), name) {
            assert(self@[at as int] == self.procs@[at as int]@);
            Some(&self.procs[at])
        } else {
            proof {
                let k = lemma_place(self@, name@);
                assert forall|i: int| 0 <= i < self@.len() implies (#[trigger] self@[i]).name
                    != name@ by {
                    lemma_precedes_irreflexive(name@);
                    if i > at {
                        assert(precedes(self@[at as int].name, self@[i].name));
                        lemma_precedes_total(self@[at as int].name, self@[i].name);
                    }
                }
            }
            None
        }
    }

    /// Whether there is a procedure named `name`.
    pub fn contains_key(&self, name: &[u8]) -> (r: bool)
        ensures
            r == exists|i: int| 0 <= i < self@.len() && (#[trigger] self@[i]).name == name@,
    {
        match self.get(name) {
            Some(p) => {
                assert(self@.contains(p@));
                true
            },
            None => false,
        }
    }

    /// Puts `proc` in at the place of its name. Returns whether it took the
    /// place of a procedure of the same name.
    pub fn insert(&mut self, proc: ProcedureAst) -> (replaced: bool)
        ensures
            final(self)@ == insert_procedure(old(self)@, proc@),
            replaced == exists|i: int|
                0 <= i < old(self)@.len() && (#[trigger] old(self)@[i]).name == proc@.name,
            sorted_by_name(old(self)@),
            sorted_by_name(final(self)@),
    {
        let at = self.place(proc.name.as_slice());
        let ghost before = self@;
        let ghost p = proc@;
        proof {
            lemma_insert_sorted(before, p);
            let k = lemma_place(before, p.name);
            lemma_precedes_irreflexive(p.name);
            assert forall|i: int| 0 <= i < before.len() && i != at implies (#[trigger] before[i]).name
                != p.name by {}
        }
        let mut taken = ProcMap::new();
        core::mem::swap(self, &mut taken);
        let mut procs = taken.procs;
        let replaced = at < procs.len() && same_bytes(
            procs[at].name.as_slice(),
            proc.name.as_slice(),
        );
        if replaced {
            assert(before[at as int].name == p.name);
            procs.set(at, proc);
            assert(procedures_view(procs@) =~= before.update(at as int, p));
        } else {
            assert(at < before.len() ==> before[at as int].name != p.name);
            procs.insert(at, proc);
            assert(procedures_view(procs@) =~= before.insert(at as int, p));
        }
        *self = ProcMap { procs };
        replaced
    }
}

} // verus!
