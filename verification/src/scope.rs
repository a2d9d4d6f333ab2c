//! Scope data: for every scope-introducing node of a script, the names
//! bound directly in it.

use vstd::prelude::*;
use crate::scope_pass::{records_view, script_records, visit_statements};
use crate::tree::{Program, SourceAtomSetIndex};

verus! {

/// The declarative form that introduced a name.
#[derive(Debug, Clone, Copy, PartialEq, Eq, Structural)]
pub enum BindingKind {
    Var,
    Let,
    Const,
    Parameter,
    Function,
}

impl BindingKind {
    /// Whether a name of this kind must be unique within its record.
    pub open spec fn spec_is_lexical(self) -> bool {
        self == BindingKind::Let || self == BindingKind::Const
    }

    /// Whether a name of this kind must be unique within its record.
    #[verifier::when_used_as_spec(spec_is_lexical)]
    pub fn is_lexical(self) -> (lexical: bool)
        ensures
            lexical == self.spec_is_lexical(),
    {
        match self {
            BindingKind::Let | BindingKind::Const => true,
            _ => false,
        }
    }
}

/// A name and the declarative form that introduced it.
#[derive(Debug, Clone, Copy, PartialEq, Eq, Structural)]
pub struct BindingName {
    pub name: SourceAtomSetIndex,
    pub kind: BindingKind,
}

/// The names bound directly in one scope, in source order.
#[derive(Debug, PartialEq)]
pub struct ScopeRecord {
    pub bindings: Vec<BindingName>,
}

impl View for ScopeRecord {
    type V = Seq<BindingName>;

    open spec fn view(&self) -> Seq<BindingName> {
        self.bindings@
    }
}

/// The position of the first binding of `name` in `bindings` at or after `from`.
pub open spec fn binding_index(
    bindings: Seq<BindingName>,
    name: SourceAtomSetIndex,
    from: int,
) -> Option<int>
    decreases bindings.len() - from,
{
    if from < 0 || from >= bindings.len() {
        None
    } else if bindings[from].name == name {
        Some(from)
    } else {
        binding_index(bindings, name, from + 1)
    }
}

/// Whether the binding at `at` is lexical and repeats the name of a lexical
/// binding before it.
pub open spec fn repeats_lexical(bindings: Seq<BindingName>, at: int) -> bool {
    bindings[at].kind.spec_is_lexical() && exists|i: int|
        0 <= i < at && (#[trigger] bindings[i]).kind.spec_is_lexical() && bindings[i].name
            == bindings[at].name
}

/// The position, at or after `from`, of the first lexical binding that
/// repeats an earlier one.
pub open spec fn first_lexical_duplicate(bindings: Seq<BindingName>, from: int) -> Option<int>
    decreases bindings.len() - from,
{
    if from < 0 || from >= bindings.len() {
        None
    } else if repeats_lexical(bindings, from) {
        Some(from)
    } else {
        first_lexical_duplicate(bindings, from + 1)
    }
}

/// Whether two distinct lexical bindings of the record share a name.
pub open spec fn has_lexical_duplicate(bindings: Seq<BindingName>) -> bool {
    exists|i: int, j: int|
        0 <= i < j < bindings.len() && (#[trigger] bindings[i]).kind.spec_is_lexical()
            && (#[trigger] bindings[j]).kind.spec_is_lexical() && bindings[i].name
            == bindings[j].name
}

/// A record has a first repeated lexical name exactly when two of its
/// lexical bindings share a name.
pub proof fn lemma_first_lexical_duplicate(bindings: Seq<BindingName>, from: int)
    requires
        0 <= from,
        forall|j: int| 0 <= j < from ==> !repeats_lexical(bindings, j),
    ensures
        first_lexical_duplicate(bindings, from) is Some <==> has_lexical_duplicate(bindings),
        first_lexical_duplicate(bindings, from) matches Some(j) ==> from <= j < bindings.len()
            && repeats_lexical(bindings, j),
    decreases bindings.len() - from,
{
    if from >= bindings.len() {
        if has_lexical_duplicate(bindings) {
            let (i, j) = choose|i: int, j: int|
                0 <= i < j < bindings.len() && (#[trigger] bindings[i]).kind.spec_is_lexical()
                    && (#[trigger] bindings[j]).kind.spec_is_lexical() && bindings[i].name
                    == bindings[j].name;
            assert(repeats_lexical(bindings, j));
        }
    } else if repeats_lexical(bindings, from) {
        let i = choose|i: int|
            0 <= i < from && (#[trigger] bindings[i]).kind.spec_is_lexical() && bindings[i].name
                == bindings[from].name;
        assert(bindings[i].kind.spec_is_lexical() && bindings[from].kind.spec_is_lexical());
    } else {
        lemma_first_lexical_duplicate(bindings, from + 1);
    }
}

impl ScopeRecord {
    /// A record that binds nothing.
    pub fn new() -> (record: Self)
        ensures
            record@ == Seq::<BindingName>::empty(),
    {
        ScopeRecord { bindings: Vec::new() }
    }

    /// The position of the first binding of `name`, if the record binds it.
    pub fn lookup(&self, name: SourceAtomSetIndex) -> (found: Option<usize>)
        ensures
            found matches Some(i) ==> binding_index(self@, name, 0) == Some(i as int),
            found is None ==> binding_index(self@, name, 0) is None,
    {
        let mut i: usize = 0;
        while i < self.bindings.len()
            invariant
                i <= self.bindings.len(),
                binding_index(self@, name, 0) == binding_index(self@, name, i as int),
            decreases self.bindings.len() - i,
        {
            if self.bindings[i].name == name {
                return Some(i);
            }
            i = i + 1;
        }
        None
    }

    /// The first lexical binding that repeats the name of an earlier one.
    pub fn find_lexical_duplicate(&self) -> (found: Option<SourceAtomSetIndex>)
        ensures
            found is Some <==> has_lexical_duplicate(self@),
            found == match first_lexical_duplicate(self@, 0) {
                Some(j) => Some(self@[j].name),
                None => None,
            },
    {
        let mut j: usize = 0;
        while j < self.bindings.len()
            invariant
                j <= self.bindings.len(),
                first_lexical_duplicate(self@, 0) == first_lexical_duplicate(self@, j as int),
                forall|k: int| 0 <= k < j ==> !repeats_lexical(self@, k),
            decreases self.bindings.len() - j,
        {
            if self.bindings[j].kind.is_lexical() {
                let mut i: usize = 0;
                while i < j
                    invariant
                        i <= j,
                        j < self.bindings.len(),
                        self@[j as int].kind.spec_is_lexical(),
                        first_lexical_duplicate(self@, 0) == first_lexical_duplicate(
                            self@,
                            j as int,
                        ),
                        forall|k: int| 0 <= k < j ==> !repeats_lexical(self@, k),
                        forall|k: int|
                            0 <= k < i ==> !((#[trigger] self@[k]).kind.spec_is_lexical()
                                && self@[k].name == self@[j as int].name),
                    decreases j - i,
                {
                    if self.bindings[i].kind.is_lexical() && self.bindings[i].name
                        == self.bindings[j].name {
                        proof {
                            assert(repeats_lexical(self@, j as int));
                            lemma_first_lexical_duplicate(self@, j as int);
                        }
                        return Some(self.bindings[j].name);
                    }
                    i = i + 1;
                }
            }
            assert(!repeats_lexical(self@, j as int));
            j = j + 1;
        }
        proof {
            lemma_first_lexical_duplicate(self@, j as int);
        }
        None
    }
}

/// The records of a script, indexed by the position of their node in a
/// pre-order walk of the scope-introducing nodes. Record 0 is the script's.
#[derive(Debug, PartialEq)]
pub struct ScopeDataMap {
    pub records: Vec<ScopeRecord>,
}

impl View for ScopeDataMap {
    type V = Seq<Seq<BindingName>>;

    open spec fn view(&self) -> Seq<Seq<BindingName>> {
        records_view(self.records@)
    }
}

impl ScopeDataMap {
    /// The number of records.
    pub fn len(&self) -> (len: usize)
        ensures
            len == self@.len(),
    {
        self.records.len()
    }

    /// The record of the scope with the given index.
    pub fn get(&self, index: usize) -> (record: Option<&ScopeRecord>)
        ensures
            index < self@.len() <==> record is Some,
            record matches Some(r) ==> r@ == self@[index as int] && index < usize::MAX,
    {
        if index < self.records.len() {
            Some(&self.records[index])
        } else {
            None
        }
    }
}

/// The scope data of `program`: the records of its scopes in the order a
/// walk enters them, the script's own record first. A module has none.
pub open spec fn scope_data(program: Program) -> Seq<Seq<BindingName>> {
    match program {
        Program::Script(script) => script_records(script.statements@),
        Program::Module => Seq::empty(),
    }
}

/// Visits all nodes of the tree and creates its scope data.
pub fn generate_scope_data(ast: &Program) -> (map: ScopeDataMap)
    ensures
        map@ == scope_data(*ast),
{
    let mut records: Vec<ScopeRecord> = Vec::new();
    match ast {
        Program::Script(script) => {
            records.push(ScopeRecord::new());
            let ghost opened = records_view(records@);
            visit_statements(&mut records, &script.statements, 0, 0);
            proof {
                let now = records_view(records@);
                let expected = script_records(script.statements@);
                assert(opened =~= seq![Seq::<BindingName>::empty()]);
                assert(now.len() == expected.len());
                assert forall|k: int| 0 <= k < now.len() implies now[k] =~= expected[k] by {}
                assert(now =~= expected);
            }
        },
        Program::Module => {
            assert(records_view(records@) =~= Seq::<Seq<BindingName>>::empty());
        },
    }
    ScopeDataMap { records }
}

} // verus!
