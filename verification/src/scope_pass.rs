//! Scope analysis: one walk over the statements of a script that collects,
//! for every scope-introducing node, the names bound directly in it.
//!
//! A script, a block and the parameter list of a function declaration
//! introduce a scope. `let`, `const` and function declarations bind in the
//! nearest enclosing block or script; `var` declarations bind in the
//! script, however deep in blocks they stand. Scopes are numbered in the
//! order the walk enters them.

use vstd::prelude::*;
use crate::scope::{BindingKind, BindingName, ScopeRecord};
use crate::tree::{Binding, SourceAtomSetIndex, Statement, VariableDeclaration,
    VariableDeclarationKind, VariableDeclarationOrExpression, VariableDeclarator};

verus! {

/// The binding kind of the names a declaration of `kind` binds.
pub open spec fn spec_binding_kind(kind: VariableDeclarationKind) -> BindingKind {
    match kind {
        VariableDeclarationKind::Var => BindingKind::Var,
        VariableDeclarationKind::Let => BindingKind::Let,
        VariableDeclarationKind::Const => BindingKind::Const,
    }
}

/// The binding kind of the names a declaration of `kind` binds.
#[verifier::when_used_as_spec(spec_binding_kind)]
pub fn binding_kind(kind: VariableDeclarationKind) -> (binding: BindingKind)
    ensures
        binding == spec_binding_kind(kind),
{
    match kind {
        VariableDeclarationKind::Var => BindingKind::Var,
        VariableDeclarationKind::Let => BindingKind::Let,
        VariableDeclarationKind::Const => BindingKind::Const,
    }
}

/// The names the declarators from `from` on bind, each with `kind`.
pub open spec fn declarator_names(
    declarators: Seq<VariableDeclarator>,
    from: int,
    kind: BindingKind,
) -> Seq<BindingName>
    decreases declarators.len() - from,
{
    if 0 <= from < declarators.len() {
        (match declarators[from].binding {
            Binding::BindingIdentifier(name) => seq![BindingName { name, kind }],
            Binding::BindingPattern => Seq::empty(),
        }) + declarator_names(declarators, from + 1, kind)
    } else {
        Seq::empty()
    }
}

/// The names a declaration binds, as far as they are asked for: its
/// names if it is a `var` declaration and `var` is set, or a `let` or
/// `const` declaration and `lexical` is set.
pub open spec fn declaration_names(
    declaration: VariableDeclaration,
    lexical: bool,
    var: bool,
) -> Seq<
    BindingName,
> {
    if (declaration.kind is Var && var) || (!(declaration.kind is Var) && lexical) {
        declarator_names(declaration.declarators@, 0, spec_binding_kind(declaration.kind))
    } else {
        Seq::empty()
    }
}

/// The names the header of a `for` loop binds, as far as they are asked for.
pub open spec fn for_init_names(
    init: Option<VariableDeclarationOrExpression>,
    lexical: bool,
    var: bool,
) -> Seq<BindingName> {
    match init {
        Some(VariableDeclarationOrExpression::VariableDeclaration(declaration)) => {
            declaration_names(declaration, lexical, var)
        },
        _ => Seq::empty(),
    }
}

/// The names `statement` binds in the scopes around it, in source order:
/// with `lexical`, the names that belong to the nearest enclosing block or
/// script; with `var`, the names that belong to the script.
pub open spec fn declared(statement: Statement, lexical: bool, var: bool) -> Seq<BindingName>
    decreases statement, 0nat,
{
    match statement {
        Statement::BlockStatement { block } => declared_list(block.statements@, 0, false, var),
        Statement::DoWhileStatement(do_while) => declared(*do_while.block, lexical, var),
        Statement::ForStatement(for_statement) => for_init_names(
            for_statement.init,
            lexical,
            var,
        ) + declared(*for_statement.block, lexical, var),
        Statement::IfStatement(if_statement) => declared(*if_statement.consequent, lexical, var)
            + match if_statement.alternate {
            Some(alternate) => declared(*alternate, lexical, var),
            None => Seq::empty(),
        },
        Statement::VariableDeclarationStatement(declaration) => declaration_names(
            declaration,
            lexical,
            var,
        ),
        Statement::WhileStatement(while_statement) => declared(
            *while_statement.block,
            lexical,
            var,
        ),
        Statement::FunctionDeclaration { name, .. } => if lexical {
            seq![BindingName { name, kind: BindingKind::Function }]
        } else {
            Seq::empty()
        },
        _ => Seq::empty(),
    }
}

/// The names the statements from `from` on bind in the scopes around them.
pub open spec fn declared_list(
    statements: Seq<Statement>,
    from: int,
    lexical: bool,
    var: bool,
) -> Seq<
    BindingName,
>
    decreases statements, statements.len() - from,
{
    if 0 <= from < statements.len() {
        declared(statements[from], lexical, var) + declared_list(
            statements,
            from + 1,
            lexical,
            var,
        )
    } else {
        Seq::empty()
    }
}

/// The record of a parameter list.
pub open spec fn parameter_bindings(params: Seq<SourceAtomSetIndex>) -> Seq<BindingName> {
    Seq::new(params.len(), |i: int| BindingName { name: params[i], kind: BindingKind::Parameter })
}

/// The records of the scopes inside `statement`, in the order a walk
/// enters them.
pub open spec fn nested_records(statement: Statement) -> Seq<Seq<BindingName>>
    decreases statement, 0nat,
{
    match statement {
        Statement::BlockStatement { block } => seq![
            declared_list(block.statements@, 0, true, false),
        ] + nested_records_list(block.statements@, 0),
        Statement::DoWhileStatement(do_while) => nested_records(*do_while.block),
        Statement::ForStatement(for_statement) => nested_records(*for_statement.block),
        Statement::IfStatement(if_statement) => nested_records(*if_statement.consequent)
            + match if_statement.alternate {
            Some(alternate) => nested_records(*alternate),
            None => Seq::empty(),
        },
        Statement::WhileStatement(while_statement) => nested_records(*while_statement.block),
        Statement::FunctionDeclaration { params, .. } => seq![parameter_bindings(params@)],
        _ => Seq::empty(),
    }
}

/// The records of the scopes inside the statements from `from` on.
pub open spec fn nested_records_list(statements: Seq<Statement>, from: int) -> Seq<
    Seq<BindingName>,
>
    decreases statements, statements.len() - from,
{
    if 0 <= from < statements.len() {
        nested_records(statements[from]) + nested_records_list(statements, from + 1)
    } else {
        Seq::empty()
    }
}

/// The records of a script: its own, then those of the scopes inside it.
pub open spec fn script_records(statements: Seq<Statement>) -> Seq<Seq<BindingName>> {
    seq![declared_list(statements, 0, true, true)] + nested_records_list(statements, 0)
}

/// The contents of a list of records.
pub open spec fn records_view(records: Seq<ScopeRecord>) -> Seq<Seq<BindingName>> {
    Seq::new(records.len(), |i: int| records[i]@)
}

/// `map` after a walk over a piece of the tree: `own` appended to the
/// record of the enclosing block, `hoisted` to the record of the script,
/// and the records of the scopes inside the piece added at the end.
pub open spec fn extended(
    map: Seq<Seq<BindingName>>,
    lexical: int,
    var: int,
    own: Seq<BindingName>,
    hoisted: Seq<BindingName>,
    nested: Seq<Seq<BindingName>>,
) -> Seq<Seq<BindingName>> {
    let with_own = map.update(lexical, map[lexical] + own);
    with_own.update(var, with_own[var] + hoisted) + nested
}

/// What `statement` adds to the record of the enclosing block or script.
pub open spec fn own_bindings(statement: Statement, lexical: int, var: int) -> Seq<BindingName> {
    declared(statement, true, lexical == var)
}

/// What `statement` adds to the record of the script from inside a block.
pub open spec fn hoisted_bindings(statement: Statement, lexical: int, var: int) -> Seq<
    BindingName,
> {
    if lexical == var {
        Seq::empty()
    } else {
        declared(statement, false, true)
    }
}

/// What the statements from `from` on add to the record of the enclosing
/// block or script.
pub open spec fn own_list(statements: Seq<Statement>, from: int, lexical: int, var: int) -> Seq<
    BindingName,
> {
    declared_list(statements, from, true, lexical == var)
}

/// What the statements from `from` on add to the record of the script
/// from inside a block.
pub open spec fn hoisted_list(statements: Seq<Statement>, from: int, lexical: int, var: int) -> Seq<
    BindingName,
> {
    if lexical == var {
        Seq::empty()
    } else {
        declared_list(statements, from, false, true)
    }
}

/// A statement binds nothing when neither kind of name is asked for.
proof fn lemma_declared_nothing(statement: Statement)
    ensures
        declared(statement, false, false) == Seq::<BindingName>::empty(),
    decreases statement, 0nat,
{
    let nothing = Seq::<BindingName>::empty();
    assert(nothing + nothing =~= nothing);
    match statement {
        Statement::BlockStatement { block } => {
            lemma_declared_list_nothing(block.statements@, 0);
        },
        Statement::DoWhileStatement(do_while) => {
            lemma_declared_nothing(*do_while.block);
        },
        Statement::ForStatement(for_statement) => {
            lemma_declared_nothing(*for_statement.block);
        },
        Statement::IfStatement(if_statement) => {
            lemma_declared_nothing(*if_statement.consequent);
            match if_statement.alternate {
                Some(alternate) => {
                    lemma_declared_nothing(*alternate);
                },
                None => {},
            }
        },
        Statement::WhileStatement(while_statement) => {
            lemma_declared_nothing(*while_statement.block);
        },
        _ => {},
    }
}

proof fn lemma_declared_list_nothing(statements: Seq<Statement>, from: int)
    ensures
        declared_list(statements, from, false, false) == Seq::<BindingName>::empty(),
    decreases statements, statements.len() - from,
{
    let nothing = Seq::<BindingName>::empty();
    assert(nothing + nothing =~= nothing);
    if 0 <= from < statements.len() {
        lemma_declared_nothing(statements[from]);
        lemma_declared_list_nothing(statements, from + 1);
    }
}

proof fn lemma_extended_twice(
    map: Seq<Seq<BindingName>>,
    lexical: int,
    var: int,
    own1: Seq<BindingName>,
    hoisted1: Seq<BindingName>,
    nested1: Seq<Seq<BindingName>>,
    own2: Seq<BindingName>,
    hoisted2: Seq<BindingName>,
    nested2: Seq<Seq<BindingName>>,
)
    requires
        0 <= lexical < map.len(),
        0 <= var < map.len(),
        lexical == var ==> hoisted1.len() == 0 && hoisted2.len() == 0,
    ensures
        extended(
            extended(map, lexical, var, own1, hoisted1, nested1),
            lexical,
            var,
            own2,
            hoisted2,
            nested2,
        ) == extended(map, lexical, var, own1 + own2, hoisted1 + hoisted2, nested1 + nested2),
{
    let once = extended(map, lexical, var, own1, hoisted1, nested1);
    let twice = extended(once, lexical, var, own2, hoisted2, nested2);
    let both = extended(map, lexical, var, own1 + own2, hoisted1 + hoisted2, nested1 + nested2);
    assert(twice.len() == both.len());
    assert forall|k: int| 0 <= k < twice.len() implies twice[k] =~= both[k] by {
        if lexical == var {
            assert(hoisted1 =~= Seq::empty());
            assert(hoisted2 =~= Seq::empty());
        }
    }
    assert(twice =~= both);
}

proof fn lemma_extended_nothing(map: Seq<Seq<BindingName>>, lexical: int, var: int)
    requires
        0 <= lexical < map.len(),
        0 <= var < map.len(),
    ensures
        extended(map, lexical, var, Seq::empty(), Seq::empty(), Seq::empty()) == map,
{
    let same = extended(map, lexical, var, Seq::empty(), Seq::empty(), Seq::empty());
    assert forall|k: int| 0 <= k < map.len() implies same[k] =~= map[k] by {}
    assert(same =~= map);
}

/// Appends the names of the declarators to the record `target`.
fn push_names(
    records: &mut Vec<ScopeRecord>,
    target: usize,
    declarators: &Vec<VariableDeclarator>,
    kind: BindingKind,
)
    requires
        target < old(records)@.len(),
    ensures
        records_view(final(records)@) == records_view(old(records)@).update(
            target as int,
            records_view(old(records)@)[target as int] + declarator_names(declarators@, 0, kind),
        ),
{
    let ghost start = records_view(records@);
    let mut i: usize = 0;
    while i < declarators.len()
        invariant
            i <= declarators.len(),
            target < records@.len(),
            start.len() == records@.len(),
            target < start.len(),
            records_view(records@).update(
                target as int,
                records_view(records@)[target as int] + declarator_names(
                    declarators@,
                    i as int,
                    kind,
                ),
            ) == start.update(
                target as int,
                start[target as int] + declarator_names(declarators@, 0, kind),
            ),
        decreases declarators.len() - i,
    {
        let ghost before = records_view(records@);
        match &declarators[i].binding {
            Binding::BindingIdentifier(name) => {
                records[target].bindings.push(BindingName { name: *name, kind });
                proof {
                    let now = records_view(records@);
                    let rest = declarator_names(declarators@, i as int + 1, kind);
                    let added = seq![BindingName { name: *name, kind }];
                    assert(now[target as int] =~= before[target as int] + added);
                    assert(now[target as int] + rest =~= before[target as int] + (added + rest));
                    assert(now.update(target as int, now[target as int] + rest) =~= before.update(
                        target as int,
                        before[target as int] + (added + rest),
                    ));
                }
            },
            Binding::BindingPattern => {
                proof {
                    let rest = declarator_names(declarators@, i as int + 1, kind);
                    assert(Seq::<BindingName>::empty() + rest =~= rest);
                }
            },
        }
        i = i + 1;
    }
    proof {
        let now = records_view(records@);
        assert(now[target as int] + Seq::<BindingName>::empty() =~= now[target as int]);
        assert(now.update(target as int, now[target as int]) =~= now);
    }
}

/// Records the names of a declaration: in the script's record for `var`,
/// in the record of the enclosing block or script otherwise.
fn visit_declaration(
    records: &mut Vec<ScopeRecord>,
    declaration: &VariableDeclaration,
    lexical: usize,
    var: usize,
)
    requires
        lexical < old(records)@.len(),
        var < old(records)@.len(),
    ensures
        records_view(final(records)@) == extended(
            records_view(old(records)@),
            lexical as int,
            var as int,
            declaration_names(*declaration, true, lexical == var),
            if lexical == var {
                Seq::empty()
            } else {
                declaration_names(*declaration, false, true)
            },
            Seq::empty(),
        ),
{
    let ghost start = records_view(records@);
    let kind = binding_kind(declaration.kind);
    let ghost names = declarator_names(declaration.declarators@, 0, kind);
    match declaration.kind {
        VariableDeclarationKind::Var => {
            push_names(records, var, &declaration.declarators, kind);
            proof {
                let now = records_view(records@);
                if lexical == var {
                    let expected = extended(
                        start,
                        lexical as int,
                        var as int,
                        names,
                        Seq::empty(),
                        Seq::empty(),
                    );
                    assert forall|k: int| 0 <= k < now.len() implies now[k] =~= expected[k] by {}
                    assert(now =~= expected);
                } else {
                    let expected = extended(
                        start,
                        lexical as int,
                        var as int,
                        Seq::empty(),
                        names,
                        Seq::empty(),
                    );
                    assert forall|k: int| 0 <= k < now.len() implies now[k] =~= expected[k] by {}
                    assert(now =~= expected);
                }
            }
        },
        _ => {
            push_names(records, lexical, &declaration.declarators, kind);
            proof {
                let now = records_view(records@);
                let expected = extended(
                    start,
                    lexical as int,
                    var as int,
                    names,
                    Seq::empty(),
                    Seq::empty(),
                );
                assert forall|k: int| 0 <= k < now.len() implies now[k] =~= expected[k] by {}
                assert(now =~= expected);
            }
        },
    }
}

/// Walks `statement` with the record `lexical` as that of the enclosing
/// block or script and the record `var` as that of the script.
pub fn visit_statement(
    records: &mut Vec<ScopeRecord>,
    statement: &Statement,
    lexical: usize,
    var: usize,
)
    requires
        lexical < old(records)@.len(),
        var < old(records)@.len(),
    ensures
        final(records)@.len() == old(records)@.len() + nested_records(*statement).len(),
        records_view(final(records)@) == extended(
            records_view(old(records)@),
            lexical as int,
            var as int,
            own_bindings(*statement, lexical as int, var as int),
            hoisted_bindings(*statement, lexical as int, var as int),
            nested_records(*statement),
        ),
    decreases *statement, 0nat,
{
    let ghost start = records_view(records@);
    let ghost l = lexical as int;
    let ghost v = var as int;
    match statement {
        Statement::BlockStatement { block } => {
            let inner = records.len();
            records.push(ScopeRecord::new());
            let ghost opened = records_view(records@);
            visit_statements(records, &block.statements, inner, var);
            proof {
                let now = records_view(records@);
                let stmts = block.statements@;
                let expected = extended(
                    start,
                    l,
                    v,
                    own_bindings(*statement, l, v),
                    hoisted_bindings(*statement, l, v),
                    nested_records(*statement),
                );
                assert(opened =~= start.push(Seq::empty()));
                lemma_declared_list_nothing(stmts, 0);
                assert(now.len() == expected.len());
                assert forall|k: int| 0 <= k < now.len() implies now[k] =~= expected[k] by {}
                assert(now =~= expected);
            }
        },
        Statement::DoWhileStatement(do_while) => {
            visit_statement(records, &do_while.block, lexical, var);
        },
        Statement::ForStatement(for_statement) => {
            match &for_statement.init {
                Some(VariableDeclarationOrExpression::VariableDeclaration(declaration)) => {
                    visit_declaration(records, declaration, lexical, var);
                },
                _ => {
                    proof {
                        lemma_extended_nothing(start, l, v);
                    }
                },
            }
            let ghost middle = records_view(records@);
            visit_statement(records, &for_statement.block, lexical, var);
            proof {
                lemma_extended_twice(
                    start,
                    l,
                    v,
                    for_init_names(for_statement.init, true, l == v),
                    if l == v {
                        Seq::empty()
                    } else {
                        for_init_names(for_statement.init, false, true)
                    },
                    Seq::empty(),
                    own_bindings(*for_statement.block, l, v),
                    hoisted_bindings(*for_statement.block, l, v),
                    nested_records(*for_statement.block),
                );
                assert(Seq::<Seq<BindingName>>::empty() + nested_records(*for_statement.block)
                    =~= nested_records(*for_statement.block));
                if l == v {
                    assert(Seq::<BindingName>::empty() + Seq::<BindingName>::empty()
                        =~= Seq::<BindingName>::empty());
                }
            }
        },
        Statement::IfStatement(if_statement) => {
            visit_statement(records, &if_statement.consequent, lexical, var);
            match &if_statement.alternate {
                Some(alternate) => {
                    visit_statement(records, alternate, lexical, var);
                    proof {
                        lemma_extended_twice(
                            start,
                            l,
                            v,
                            own_bindings(*if_statement.consequent, l, v),
                            hoisted_bindings(*if_statement.consequent, l, v),
                            nested_records(*if_statement.consequent),
                            own_bindings(**alternate, l, v),
                            hoisted_bindings(**alternate, l, v),
                            nested_records(**alternate),
                        );
                        if l == v {
                            assert(Seq::<BindingName>::empty() + Seq::<BindingName>::empty()
                                =~= Seq::<BindingName>::empty());
                        }
                    }
                },
                None => {
                    proof {
                        let own = own_bindings(*if_statement.consequent, l, v);
                        let hoisted = hoisted_bindings(*if_statement.consequent, l, v);
                        let nested = nested_records(*if_statement.consequent);
                        assert(own + Seq::<BindingName>::empty() =~= own);
                        assert(hoisted + Seq::<BindingName>::empty() =~= hoisted);
                        assert(nested + Seq::<Seq<BindingName>>::empty() =~= nested);
                    }
                },
            }
        },
        Statement::VariableDeclarationStatement(declaration) => {
            visit_declaration(records, declaration, lexical, var);
        },
        Statement::WhileStatement(while_statement) => {
            visit_statement(records, &while_statement.block, lexical, var);
        },
        Statement::FunctionDeclaration { name, params } => {
            records[lexical].bindings.push(
                BindingName { name: *name, kind: BindingKind::Function },
            );
            let ghost named = records_view(records@);
            proof {
                let added = seq![BindingName { name: *name, kind: BindingKind::Function }];
                assert(named[l] =~= start[l] + added);
                assert(named =~= start.update(l, start[l] + added));
            }
            let mut record = ScopeRecord::new();
            let mut i: usize = 0;
            while i < params.len()
                invariant
                    i <= params.len(),
                    record@.len() == i,
                    forall|k: int|
                        0 <= k < i ==> record@[k] == (BindingName {
                            name: params@[k],
                            kind: BindingKind::Parameter,
                        }),
                decreases params.len() - i,
            {
                record.bindings.push(BindingName { name: params[i], kind: BindingKind::Parameter });
                i = i + 1;
            }
            assert(record@ =~= parameter_bindings(params@));
            records.push(record);
            proof {
                let now = records_view(records@);
                assert(now =~= named.push(parameter_bindings(params@)));
                assert(named[v] + Seq::<BindingName>::empty() =~= named[v]);
                let expected = extended(
                    start,
                    l,
                    v,
                    own_bindings(*statement, l, v),
                    hoisted_bindings(*statement, l, v),
                    nested_records(*statement),
                );
                assert(now.len() == expected.len());
                assert forall|k: int| 0 <= k < now.len() implies now[k] =~= expected[k] by {}
                assert(now =~= expected);
            }
        },
        _ => {
            proof {
                lemma_extended_nothing(start, l, v);
            }
        },
    }
}

/// Walks the statements of a block or a script in source order.
pub fn visit_statements(
    records: &mut Vec<ScopeRecord>,
    statements: &Vec<Statement>,
    lexical: usize,
    var: usize,
)
    requires
        lexical < old(records)@.len(),
        var < old(records)@.len(),
    ensures
        final(records)@.len() == old(records)@.len() + nested_records_list(statements@, 0).len(),
        records_view(final(records)@) == extended(
            records_view(old(records)@),
            lexical as int,
            var as int,
            own_list(statements@, 0, lexical as int, var as int),
            hoisted_list(statements@, 0, lexical as int, var as int),
            nested_records_list(statements@, 0),
        ),
    decreases *statements, 0nat,
{
    let ghost start = records_view(records@);
    let ghost l = lexical as int;
    let ghost v = var as int;
    let mut i: usize = 0;
    while i < statements.len()
        invariant
            i <= statements.len(),
            lexical < records@.len(),
            var < records@.len(),
            l == lexical,
            v == var,
            start.len() == old(records)@.len(),
            start == records_view(old(records)@),
            lexical < start.len(),
            var < start.len(),
            records@.len() + nested_records_list(statements@, i as int).len() == old(
                records,
            )@.len() + nested_records_list(statements@, 0).len(),
            extended(
                records_view(records@),
                l,
                v,
                own_list(statements@, i as int, l, v),
                hoisted_list(statements@, i as int, l, v),
                nested_records_list(statements@, i as int),
            ) == extended(
                start,
                l,
                v,
                own_list(statements@, 0, l, v),
                hoisted_list(statements@, 0, l, v),
                nested_records_list(statements@, 0),
            ),
        decreases statements.len() - i,
    {
        let ghost before = records_view(records@);
        visit_statement(records, &statements[i], lexical, var);
        proof {
            lemma_extended_twice(
                before,
                l,
                v,
                own_bindings(statements@[i as int], l, v),
                hoisted_bindings(statements@[i as int], l, v),
                nested_records(statements@[i as int]),
                own_list(statements@, i as int + 1, l, v),
                hoisted_list(statements@, i as int + 1, l, v),
                nested_records_list(statements@, i as int + 1),
            );
            if l == v {
                assert(Seq::<BindingName>::empty() + Seq::<BindingName>::empty()
                    =~= Seq::<BindingName>::empty());
            }
        }
        i = i + 1;
    }
    proof {
        lemma_extended_nothing(records_view(records@), l, v);
    }
}

} // verus!
