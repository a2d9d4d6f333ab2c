use emitter::ast_emitter::{emit_program, AstEmitter};
use emitter::emitter::{EmitError, EmitOptions, EmitResult, InstructionWriter};
use emitter::opcode::{Instruction, JumpKind, Opcode, Operand};
use emitter::scope::{generate_scope_data, ScopeDataMap, ScopeRecord};
use emitter::tree::{
    Argument, Arguments, ArrayExpression, AssignmentExpression, AssignmentTarget,
    BinaryExpression, BinaryOperator, Binding, Block, CallExpression, CommonSourceAtomSetIndices,
    ComputedMemberExpression, DataProperty, Expression, ExpressionOrSuper, ForStatement,
    IfStatement, MemberExpression, NamedObjectProperty, NewExpression, ObjectExpression,
    ObjectProperty, Program, PropertyName, Script, SimpleAssignmentTarget, Statement,
    StaticMemberExpression, UnaryExpression, UnaryOperator, VariableDeclaration,
    VariableDeclarationKind, VariableDeclarationOrExpression, VariableDeclarator, WhileStatement,
};

const EVAL: usize = 7;
const X: usize = 30;

fn atoms() -> CommonSourceAtomSetIndices {
    CommonSourceAtomSetIndices { eval: EVAL }
}

fn compile(statements: Vec<Statement>) -> Result<EmitResult, EmitError> {
    let program = Program::Script(Script { statements });
    let map = generate_scope_data(&program);
    emit_program(&program, &EmitOptions { strict: false }, atoms(), map)
}

fn compile_one(e: Expression) -> Result<EmitResult, EmitError> {
    compile(vec![Statement::ExpressionStatement(e)])
}

fn rejected(name: &'static str) -> Result<EmitResult, EmitError> {
    Err(EmitError::NotImplemented(name))
}

fn boolean(value: bool) -> Expression {
    Expression::LiteralBooleanExpression { value }
}

fn ident(name: usize) -> Expression {
    Expression::IdentifierExpression { name }
}

fn boxed(e: Expression) -> ExpressionOrSuper {
    ExpressionOrSuper::Expression(Box::new(e))
}

#[test]
fn module_is_rejected() {
    let program = Program::Module;
    let map = generate_scope_data(&program);
    let result = emit_program(&program, &EmitOptions { strict: false }, atoms(), map);
    assert_eq!(result, rejected("TODO: modules"));
}

#[test]
fn unsupported_statements_are_rejected_by_name() {
    let cases = vec![
        (Statement::ClassDeclaration, "TODO: ClassDeclaration"),
        (Statement::DebuggerStatement, "TODO: DebuggerStatement"),
        (Statement::ForInStatement, "TODO: ForInStatement"),
        (Statement::ForOfStatement, "TODO: ForOfStatement"),
        (Statement::LabeledStatement, "TODO: LabeledStatement"),
        (Statement::ReturnStatement, "TODO: ReturnStatement"),
        (Statement::SwitchStatement, "TODO: SwitchStatement"),
        (Statement::SwitchStatementWithDefault, "TODO: SwitchStatementWithDefault"),
        (Statement::TryCatchStatement, "TODO: TryCatchStatement"),
        (Statement::TryFinallyStatement, "TODO: TryFinallyStatement"),
        (Statement::WithStatement, "TODO: WithStatement"),
        (Statement::FunctionDeclaration { name: X, params: vec![] }, "TODO: FunctionDeclaration"),
        (Statement::BreakStatement { label: Some(X) }, "TODO: Labeled BreakStatement"),
        (Statement::ContinueStatement { label: Some(X) }, "TODO: Labeled ContinueStatement"),
    ];
    for (statement, name) in cases {
        assert_eq!(compile(vec![statement]), rejected(name));
    }
}

#[test]
fn unsupported_expressions_are_rejected_by_name() {
    let cases = vec![
        (Expression::ClassExpression, "TODO: ClassExpression"),
        (Expression::ArrowExpression, "TODO: ArrowExpression"),
        (Expression::CompoundAssignmentExpression, "TODO: CompoundAssignmentExpression"),
        (Expression::FunctionExpression, "TODO: FunctionExpression"),
        (Expression::NewTargetExpression, "TODO: NewTargetExpression"),
        (Expression::OptionalChain, "TODO: OptionalChain"),
        (Expression::OptionalExpression, "TODO: OptionalExpression"),
        (Expression::TemplateExpression, "TODO: TemplateExpression"),
        (Expression::ThisExpression, "TODO: this"),
        (Expression::UpdateExpression, "TODO: UpdateExpression"),
        (Expression::YieldExpression, "TODO: YieldExpression"),
        (Expression::YieldGeneratorExpression, "TODO: YieldGeneratorExpression"),
        (Expression::AwaitExpression, "TODO: AwaitExpression"),
        (Expression::ImportCallExpression, "TODO: ImportCallExpression"),
    ];
    for (e, name) in cases {
        assert_eq!(compile_one(e), rejected(name));
    }
}

#[test]
fn typeof_and_delete_are_rejected() {
    let unary = |operator| {
        Expression::UnaryExpression(UnaryExpression { operator, operand: Box::new(boolean(true)) })
    };
    assert_eq!(compile_one(unary(UnaryOperator::Typeof)), rejected("TODO: Typeof"));
    assert_eq!(compile_one(unary(UnaryOperator::Delete)), rejected("TODO: Delete"));
}

#[test]
fn class_declaration_yields_no_artifact_wherever_it_stands() {
    let nested = Statement::WhileStatement(WhileStatement {
        test: boolean(true),
        block: Box::new(Statement::BlockStatement {
            block: Block {
                statements: vec![Statement::IfStatement(IfStatement {
                    test: boolean(true),
                    consequent: Box::new(Statement::EmptyStatement),
                    alternate: Some(Box::new(Statement::ClassDeclaration)),
                })],
            },
        }),
    });
    assert_eq!(
        compile(vec![Statement::EmptyStatement, nested]),
        rejected("TODO: ClassDeclaration")
    );
}

#[test]
fn the_first_unsupported_construct_in_source_order_is_reported() {
    assert_eq!(
        compile(vec![Statement::WithStatement, Statement::ClassDeclaration]),
        rejected("TODO: WithStatement")
    );
    let e = Expression::BinaryExpression(BinaryExpression {
        operator: BinaryOperator::Add,
        left: Box::new(Expression::YieldExpression),
        right: Box::new(Expression::AwaitExpression),
    });
    assert_eq!(compile_one(e), rejected("TODO: YieldExpression"));
}

#[test]
fn super_member_access_is_rejected() {
    let fixed = Expression::MemberExpression(MemberExpression::StaticMemberExpression(
        StaticMemberExpression { object: ExpressionOrSuper::Super, property: X },
    ));
    assert_eq!(compile_one(fixed), rejected("TODO: this"));
    let computed = Expression::MemberExpression(MemberExpression::ComputedMemberExpression(
        ComputedMemberExpression {
            object: ExpressionOrSuper::Super,
            expression: Box::new(boolean(true)),
        },
    ));
    assert_eq!(compile_one(computed), rejected("TODO: this"));
    let private = Expression::MemberExpression(MemberExpression::PrivateFieldExpression);
    assert_eq!(compile_one(private), rejected("PrivateFieldExpression"));
}

#[test]
fn direct_eval_is_rejected() {
    let e = Expression::CallExpression(CallExpression {
        callee: boxed(ident(EVAL)),
        arguments: Arguments { args: vec![] },
    });
    assert_eq!(compile_one(e), rejected("TODO: direct eval"));
}

#[test]
fn calls_through_other_callees_are_rejected() {
    let call = |callee| {
        Expression::CallExpression(CallExpression { callee, arguments: Arguments { args: vec![] } })
    };
    assert_eq!(compile_one(call(ExpressionOrSuper::Super)), rejected("TODO: Super"));
    assert_eq!(
        compile_one(call(boxed(boolean(true)))),
        rejected("TODO: Call (only global functions are supported)")
    );
    let on_super = Expression::MemberExpression(MemberExpression::StaticMemberExpression(
        StaticMemberExpression { object: ExpressionOrSuper::Super, property: X },
    ));
    assert_eq!(
        compile_one(call(boxed(on_super))),
        rejected("TODO: Call (only global functions are supported)")
    );
}

#[test]
fn spread_arguments_are_rejected() {
    let args = || Arguments {
        args: vec![Argument::Expression(boolean(true)), Argument::SpreadElement(ident(X))],
    };
    let call =
        Expression::CallExpression(CallExpression { callee: boxed(ident(X)), arguments: args() });
    assert_eq!(compile_one(call), rejected("TODO: SpreadElement"));
    let new = Expression::NewExpression(NewExpression {
        callee: Box::new(Expression::ClassExpression),
        arguments: args(),
    });
    // The spread is found before the callee is looked at.
    assert_eq!(compile_one(new), rejected("TODO: SpreadNew"));
}

#[test]
fn assignment_to_anything_but_a_name_is_rejected() {
    let to = |binding| {
        Expression::AssignmentExpression(AssignmentExpression {
            binding,
            expression: Box::new(Expression::ClassExpression),
        })
    };
    assert_eq!(
        compile_one(to(AssignmentTarget::AssignmentTargetPattern)),
        rejected("non-identifier assignment target")
    );
    assert_eq!(
        compile_one(to(AssignmentTarget::SimpleAssignmentTarget(
            SimpleAssignmentTarget::MemberAssignmentTarget
        ))),
        rejected("non-identifier assignment target")
    );
}

#[test]
fn binding_pattern_with_initialiser_is_rejected() {
    let declaration = |init| VariableDeclaration {
        kind: VariableDeclarationKind::Let,
        declarators: vec![VariableDeclarator { binding: Binding::BindingPattern, init }],
    };
    assert_eq!(
        compile(vec![Statement::VariableDeclarationStatement(declaration(Some(boolean(true))))]),
        rejected("BindingPattern")
    );
    // Without an initialiser there is nothing to emit.
    assert_eq!(
        compile(vec![Statement::VariableDeclarationStatement(declaration(None))]).unwrap().code,
        vec![]
    );
    let in_for = Statement::ForStatement(ForStatement {
        init: Some(VariableDeclarationOrExpression::VariableDeclaration(declaration(Some(
            boolean(true),
        )))),
        test: None,
        update: None,
        block: Box::new(Statement::EmptyStatement),
    });
    assert_eq!(compile(vec![in_for]), rejected("BindingPattern"));
}

#[test]
fn object_properties_other_than_data_properties_are_rejected() {
    for property in [
        ObjectProperty::ShorthandProperty,
        ObjectProperty::SpreadProperty,
        ObjectProperty::NamedObjectProperty(NamedObjectProperty::MethodDefinition),
    ] {
        let e = Expression::ObjectExpression(ObjectExpression {
            properties: vec![
                ObjectProperty::NamedObjectProperty(NamedObjectProperty::DataProperty(
                    DataProperty {
                        property_name: PropertyName::StaticPropertyName(X),
                        expression: Box::new(boolean(true)),
                    },
                )),
                property,
            ],
        });
        assert_eq!(compile_one(e), rejected("TODO: non data property"));
    }
}

#[test]
fn unsupported_element_of_an_array_is_rejected() {
    let e = Expression::ArrayExpression(ArrayExpression {
        elements: vec![emitter::tree::ArrayExpressionElement::SpreadElement(
            Expression::ClassExpression,
        )],
    });
    assert_eq!(compile_one(e), rejected("TODO: ClassExpression"));
}

#[test]
fn break_and_continue_need_a_loop() {
    assert_eq!(
        compile(vec![Statement::BreakStatement { label: None }]),
        Err(EmitError::NoEnclosingLoop)
    );
    assert_eq!(
        compile(vec![Statement::ContinueStatement { label: None }]),
        Err(EmitError::NoEnclosingLoop)
    );
    // A loop that has been closed does not count.
    let closed = Statement::WhileStatement(WhileStatement {
        test: boolean(false),
        block: Box::new(Statement::BreakStatement { label: None }),
    });
    assert_eq!(
        compile(vec![closed, Statement::BreakStatement { label: None }]),
        Err(EmitError::NoEnclosingLoop)
    );
}

#[test]
fn scope_without_a_record_is_rejected() {
    let program = Program::Script(Script {
        statements: vec![Statement::BlockStatement { block: Block { statements: vec![] } }],
    });
    let options = EmitOptions { strict: false };
    // No record at all: the script itself is undeclared.
    let none = ScopeDataMap { records: vec![] };
    assert_eq!(emit_program(&program, &options, atoms(), none), Err(EmitError::UndeclaredScope));
    // A record for the script but none for the block.
    let short = ScopeDataMap { records: vec![ScopeRecord { bindings: vec![] }] };
    assert_eq!(emit_program(&program, &options, atoms(), short), Err(EmitError::UndeclaredScope));
    // The program's own scope data has both.
    let own = generate_scope_data(&program);
    assert_eq!(own.records.len(), 2);
    assert!(emit_program(&program, &options, atoms(), own).is_ok());
}

#[test]
fn a_failed_emission_restores_the_scopes_and_loops() {
    let program = Program::Script(Script {
        statements: vec![Statement::BlockStatement { block: Block { statements: vec![] } }],
    });
    let map = generate_scope_data(&program);
    let options = EmitOptions { strict: false };
    let mut emitter = AstEmitter::new(&options, atoms(), map);
    emitter.scope_stack.enter(&emitter.compilation_info.scope_data_map).unwrap();
    let failing = Statement::WhileStatement(WhileStatement {
        test: boolean(true),
        block: Box::new(Statement::BlockStatement {
            block: Block { statements: vec![Statement::ClassDeclaration] },
        }),
    });
    assert_eq!(
        emitter.emit_statement(&failing),
        Err(EmitError::NotImplemented("TODO: ClassDeclaration"))
    );
    assert_eq!(emitter.scope_stack.current_depth(), 1);
    assert!(!emitter.loop_stack.in_loop());
}

#[test]
fn finalizing_with_a_pending_jump_fails() {
    let program = Program::Script(Script { statements: vec![] });
    let map = generate_scope_data(&program);
    let options = EmitOptions { strict: false };
    let mut emitter = AstEmitter::new(&options, atoms(), map);
    // `true || <class>`: the jump over the right operand is written, then
    // the right operand is rejected and the jump is never patched.
    let e = Expression::BinaryExpression(BinaryExpression {
        operator: BinaryOperator::LogicalOr,
        left: Box::new(boolean(true)),
        right: Box::new(Expression::ClassExpression),
    });
    assert_eq!(
        emitter.emit_expression(&e),
        Err(EmitError::NotImplemented("TODO: ClassExpression"))
    );
    assert_eq!(
        emitter.emit.into_emit_result(ScopeRecord { bindings: vec![] }),
        Err(EmitError::UnpatchedJump)
    );
}

#[test]
fn finalizing_without_pending_jumps_succeeds() {
    let mut writer = InstructionWriter::new();
    writer.emit_op(Opcode::LoopHead);
    writer.emit_op(Opcode::True);
    assert_eq!(writer.stack_depth(), 1);
    assert_eq!(writer.bytecode_offset(), 2);
    writer.emit_jump_backward(JumpKind::IfNe, 0);
    assert_eq!(writer.stack_depth(), 0);
    writer.emit_jump_target();
    writer.emit_with_immediate(Opcode::NewArray, 0);
    writer.set_stack_depth(0);
    let artifact = writer.into_emit_result(ScopeRecord { bindings: vec![] }).unwrap();
    assert_eq!(
        artifact.code,
        vec![
            Instruction { opcode: Opcode::LoopHead, operand: Operand::Nothing },
            Instruction { opcode: Opcode::True, operand: Operand::Nothing },
            Instruction { opcode: Opcode::IfNe, operand: Operand::Target(0) },
            Instruction { opcode: Opcode::JumpTarget, operand: Operand::Nothing },
            Instruction { opcode: Opcode::NewArray, operand: Operand::Immediate(0) },
        ]
    );
}
