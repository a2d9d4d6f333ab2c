use emitter::ast_emitter::{emit_program, AstEmitter};
use emitter::emitter::{EmitError, EmitOptions};
use emitter::emitter_scope::{EmitterScopeStack, NameLocation};
use emitter::opcode::{Instruction, Opcode, Operand};
use emitter::scope::{generate_scope_data, BindingKind, BindingName, ScopeDataMap, ScopeRecord};
use emitter::tree::{
    Binding, Block, CommonSourceAtomSetIndices, DoWhileStatement, Expression, ForStatement,
    IfStatement, Program, Script, Statement, VariableDeclaration, VariableDeclarationKind,
    VariableDeclarationOrExpression, VariableDeclarator, WhileStatement,
};

const A: usize = 1;
const B: usize = 2;
const C: usize = 3;
const D: usize = 4;
const F: usize = 5;

fn bind(name: usize, kind: BindingKind) -> BindingName {
    BindingName { name, kind }
}

fn record(bindings: Vec<BindingName>) -> ScopeRecord {
    ScopeRecord { bindings }
}

fn declare(kind: VariableDeclarationKind, names: Vec<usize>) -> VariableDeclaration {
    VariableDeclaration {
        kind,
        declarators: names
            .into_iter()
            .map(|name| VariableDeclarator { binding: Binding::BindingIdentifier(name), init: None })
            .collect(),
    }
}

fn var(names: Vec<usize>) -> Statement {
    Statement::VariableDeclarationStatement(declare(VariableDeclarationKind::Var, names))
}

fn let_(names: Vec<usize>) -> Statement {
    Statement::VariableDeclarationStatement(declare(VariableDeclarationKind::Let, names))
}

fn const_(names: Vec<usize>) -> Statement {
    Statement::VariableDeclarationStatement(declare(VariableDeclarationKind::Const, names))
}

fn block(statements: Vec<Statement>) -> Statement {
    Statement::BlockStatement { block: Block { statements } }
}

fn script(statements: Vec<Statement>) -> Program {
    Program::Script(Script { statements })
}

fn read(name: usize) -> Statement {
    Statement::ExpressionStatement(Expression::IdentifierExpression { name })
}

fn atoms() -> CommonSourceAtomSetIndices {
    CommonSourceAtomSetIndices { eval: 0 }
}

#[test]
fn empty_script_has_one_empty_record() {
    let map = generate_scope_data(&script(vec![]));
    assert_eq!(map.records, vec![record(vec![])]);
}

#[test]
fn module_has_no_records() {
    let map = generate_scope_data(&Program::Module);
    assert_eq!(map.records, vec![]);
}

#[test]
fn top_level_declarations_bind_in_the_script_in_source_order() {
    let map = generate_scope_data(&script(vec![let_(vec![A]), var(vec![B, C]), const_(vec![D])]));
    assert_eq!(
        map.records,
        vec![record(vec![
            bind(A, BindingKind::Let),
            bind(B, BindingKind::Var),
            bind(C, BindingKind::Var),
            bind(D, BindingKind::Const),
        ])]
    );
}

#[test]
fn var_in_a_block_is_hoisted_to_the_script() {
    let map = generate_scope_data(&script(vec![
        let_(vec![A]),
        block(vec![var(vec![B]), let_(vec![C]), block(vec![var(vec![D]), const_(vec![A])])]),
        var(vec![B]),
    ]));
    assert_eq!(
        map.records,
        vec![
            record(vec![
                bind(A, BindingKind::Let),
                bind(B, BindingKind::Var),
                bind(D, BindingKind::Var),
                bind(B, BindingKind::Var),
            ]),
            record(vec![bind(C, BindingKind::Let)]),
            record(vec![bind(A, BindingKind::Const)]),
        ]
    );
}

#[test]
fn scopes_are_numbered_in_the_order_they_are_entered() {
    let nested = Statement::IfStatement(IfStatement {
        test: Expression::LiteralNullExpression,
        consequent: Box::new(block(vec![let_(vec![A]), block(vec![let_(vec![B])])])),
        alternate: Some(Box::new(block(vec![let_(vec![C])]))),
    });
    let looped = Statement::WhileStatement(WhileStatement {
        test: Expression::LiteralNullExpression,
        block: Box::new(block(vec![let_(vec![D])])),
    });
    let map = generate_scope_data(&script(vec![nested, looped]));
    assert_eq!(
        map.records,
        vec![
            record(vec![]),
            record(vec![bind(A, BindingKind::Let)]),
            record(vec![bind(B, BindingKind::Let)]),
            record(vec![bind(C, BindingKind::Let)]),
            record(vec![bind(D, BindingKind::Let)]),
        ]
    );
}

#[test]
fn declarations_in_loop_headers_and_bodies_bind_in_the_enclosing_scope() {
    let for_loop = Statement::ForStatement(ForStatement {
        init: Some(VariableDeclarationOrExpression::VariableDeclaration(declare(
            VariableDeclarationKind::Let,
            vec![A],
        ))),
        test: None,
        update: None,
        block: Box::new(var(vec![B])),
    });
    let do_while = Statement::DoWhileStatement(DoWhileStatement {
        block: Box::new(let_(vec![C])),
        test: Expression::LiteralNullExpression,
    });
    let map = generate_scope_data(&script(vec![block(vec![for_loop, do_while])]));
    assert_eq!(
        map.records,
        vec![
            record(vec![bind(B, BindingKind::Var)]),
            record(vec![bind(A, BindingKind::Let), bind(C, BindingKind::Let)]),
        ]
    );
}

#[test]
fn function_declaration_binds_its_name_and_opens_a_parameter_scope() {
    let map = generate_scope_data(&script(vec![
        Statement::FunctionDeclaration { name: F, params: vec![A, B] },
        block(vec![Statement::FunctionDeclaration { name: C, params: vec![] }]),
    ]));
    assert_eq!(
        map.records,
        vec![
            record(vec![bind(F, BindingKind::Function)]),
            record(vec![bind(A, BindingKind::Parameter), bind(B, BindingKind::Parameter)]),
            record(vec![bind(C, BindingKind::Function)]),
            record(vec![]),
        ]
    );
}

#[test]
fn binding_patterns_bind_nothing() {
    let declaration = VariableDeclaration {
        kind: VariableDeclarationKind::Let,
        declarators: vec![
            VariableDeclarator { binding: Binding::BindingPattern, init: None },
            VariableDeclarator { binding: Binding::BindingIdentifier(A), init: None },
        ],
    };
    let map =
        generate_scope_data(&script(vec![Statement::VariableDeclarationStatement(declaration)]));
    assert_eq!(map.records, vec![record(vec![bind(A, BindingKind::Let)])]);
}

#[test]
fn record_lookup_finds_the_first_binding() {
    let r = record(vec![
        bind(A, BindingKind::Var),
        bind(B, BindingKind::Let),
        bind(A, BindingKind::Var),
    ]);
    assert_eq!(r.lookup(A), Some(0));
    assert_eq!(r.lookup(B), Some(1));
    assert_eq!(r.lookup(C), None);
}

#[test]
fn repeated_var_is_no_lexical_duplicate() {
    let r = record(vec![
        bind(A, BindingKind::Var),
        bind(A, BindingKind::Var),
        bind(A, BindingKind::Let),
        bind(A, BindingKind::Function),
        bind(A, BindingKind::Parameter),
    ]);
    assert_eq!(r.find_lexical_duplicate(), None);
}

#[test]
fn the_first_repeated_lexical_name_is_reported() {
    let r = record(vec![
        bind(A, BindingKind::Let),
        bind(B, BindingKind::Const),
        bind(C, BindingKind::Var),
        bind(B, BindingKind::Let),
        bind(A, BindingKind::Const),
    ]);
    assert_eq!(r.find_lexical_duplicate(), Some(B));
}

#[test]
fn scope_stack_resolves_innermost_first() {
    let map = ScopeDataMap {
        records: vec![
            record(vec![bind(A, BindingKind::Let), bind(B, BindingKind::Var)]),
            record(vec![bind(C, BindingKind::Let), bind(A, BindingKind::Let)]),
            record(vec![bind(B, BindingKind::Const)]),
        ],
    };
    let mut stack = EmitterScopeStack::new();
    assert_eq!(stack.current_depth(), 0);
    assert_eq!(stack.lookup_name(&map, A), NameLocation::Dynamic(A));

    stack.enter(&map).unwrap();
    assert_eq!(stack.lookup_name(&map, A), NameLocation::Global(A));
    assert_eq!(stack.lookup_name(&map, B), NameLocation::Global(B));
    assert_eq!(stack.lookup_name(&map, C), NameLocation::Dynamic(C));

    stack.enter(&map).unwrap();
    assert_eq!(stack.lookup_name(&map, A), NameLocation::FrameSlot { depth: 1, index: 1 });
    assert_eq!(stack.lookup_name(&map, B), NameLocation::Global(B));
    assert_eq!(stack.lookup_name(&map, C), NameLocation::FrameSlot { depth: 1, index: 0 });

    stack.enter(&map).unwrap();
    assert_eq!(stack.current_depth(), 3);
    assert_eq!(stack.lookup_name(&map, A), NameLocation::FrameSlot { depth: 1, index: 1 });
    assert_eq!(stack.lookup_name(&map, B), NameLocation::FrameSlot { depth: 2, index: 0 });
    assert_eq!(stack.lookup_name(&map, D), NameLocation::Dynamic(D));

    stack.exit();
    assert_eq!(stack.lookup_name(&map, B), NameLocation::Global(B));
    stack.exit();
    assert_eq!(stack.lookup_name(&map, A), NameLocation::Global(A));
    assert_eq!(stack.lookup_name(&map, C), NameLocation::Dynamic(C));
    stack.exit();
    assert_eq!(stack.current_depth(), 0);

    // A fourth scope has no record.
    stack.enter(&map).unwrap_err();
}

#[test]
fn sibling_blocks_get_their_own_records() {
    // { let a; a; } { let b; a; b; }
    let program = script(vec![
        block(vec![let_(vec![A]), read(A)]),
        block(vec![let_(vec![B]), read(A), read(B)]),
    ]);
    let map = generate_scope_data(&program);
    let artifact = emit_program(&program, &EmitOptions { strict: false }, atoms(), map).unwrap();
    let pop = Instruction { opcode: Opcode::Pop, operand: Operand::Nothing };
    assert_eq!(
        artifact.code,
        vec![
            Instruction { opcode: Opcode::GetLocal, operand: Operand::Slot { depth: 1, index: 0 } },
            pop,
            Instruction { opcode: Opcode::GetName, operand: Operand::Atom(0) },
            pop,
            Instruction { opcode: Opcode::GetLocal, operand: Operand::Slot { depth: 1, index: 0 } },
            pop,
        ]
    );
    assert_eq!(artifact.atoms, vec![A]);
}

#[test]
fn lookup_name_on_the_emitter_uses_the_open_scopes() {
    let program = script(vec![let_(vec![A])]);
    let map = generate_scope_data(&program);
    let opts = EmitOptions { strict: true };
    let mut emitter = AstEmitter::new(&opts, atoms(), map);
    assert_eq!(emitter.lookup_name(A), NameLocation::Dynamic(A));
    emitter.scope_stack.enter(&emitter.compilation_info.scope_data_map).unwrap();
    assert_eq!(emitter.lookup_name(A), NameLocation::Global(A));
    assert_eq!(emitter.lookup_name(B), NameLocation::Dynamic(B));
}

#[test]
fn top_scope_of_the_artifact_is_the_script_record() {
    let program = script(vec![let_(vec![A]), block(vec![let_(vec![B]), var(vec![C])])]);
    let map = generate_scope_data(&program);
    let artifact = emit_program(&program, &EmitOptions { strict: false }, atoms(), map).unwrap();
    assert_eq!(
        artifact.top_scope,
        record(vec![bind(A, BindingKind::Let), bind(C, BindingKind::Var)])
    );
}

#[test]
fn duplicate_let_in_a_block_is_rejected() {
    let program = script(vec![let_(vec![A]), block(vec![let_(vec![B]), let_(vec![B])])]);
    let map = generate_scope_data(&program);
    let result = emit_program(&program, &EmitOptions { strict: false }, atoms(), map);
    assert_eq!(result, Err(EmitError::DuplicateLexicalBinding(B)));
}

#[test]
fn duplicate_let_at_top_level_is_rejected() {
    let program = script(vec![let_(vec![A]), const_(vec![A])]);
    let map = generate_scope_data(&program);
    let result = emit_program(&program, &EmitOptions { strict: false }, atoms(), map);
    assert_eq!(result, Err(EmitError::DuplicateLexicalBinding(A)));
}

#[test]
fn same_let_name_in_nested_blocks_is_accepted() {
    let program = script(vec![let_(vec![A]), block(vec![let_(vec![A]), block(vec![let_(vec![A])])])]);
    let map = generate_scope_data(&program);
    assert!(emit_program(&program, &EmitOptions { strict: false }, atoms(), map).is_ok());
}
