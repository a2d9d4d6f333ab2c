use emitter::ast_emitter::{emit_program, AstEmitter};
use emitter::emitter::{EmitError, EmitOptions, EmitResult, RegExpItem};
use emitter::opcode::{Instruction, Opcode, Operand};
use emitter::scope::{generate_scope_data, ScopeRecord};
use emitter::tree::{
    Argument, Arguments, ArrayExpression, ArrayExpressionElement, AssignmentExpression,
    AssignmentTarget, BinaryExpression, BinaryOperator, Binding, Block, CallExpression,
    CommonSourceAtomSetIndices, ComputedMemberExpression, ConditionalExpression, DataProperty,
    DoWhileStatement, Expression, ExpressionOrSuper, ForStatement, IfStatement, MemberExpression,
    NamedObjectProperty, NewExpression, ObjectExpression, ObjectProperty, Program, PropertyName,
    Script, SimpleAssignmentTarget, Statement, StaticMemberExpression, UnaryExpression,
    UnaryOperator, VariableDeclaration, VariableDeclarationKind, VariableDeclarationOrExpression,
    VariableDeclarator, WhileStatement,
};

const EVAL: usize = 0;
const F: usize = 20;
const X: usize = 30;
const Y: usize = 31;
const P: usize = 40;

fn options() -> EmitOptions {
    EmitOptions { strict: false }
}

fn atoms() -> CommonSourceAtomSetIndices {
    CommonSourceAtomSetIndices { eval: EVAL }
}

fn compile(statements: Vec<Statement>) -> Result<EmitResult, EmitError> {
    let program = Program::Script(Script { statements });
    let map = generate_scope_data(&program);
    emit_program(&program, &options(), atoms(), map)
}

/// Emits one expression as the whole stream of a fresh emitter whose only
/// open scope is an empty script scope.
fn compile_expression(e: &Expression) -> Result<EmitResult, EmitError> {
    let program = Program::Script(Script { statements: vec![] });
    let map = generate_scope_data(&program);
    let opts = options();
    let mut emitter = AstEmitter::new(&opts, atoms(), map);
    emitter.emit_expression(e)?;
    assert_eq!(emitter.emit.stack_depth(), 1);
    emitter.emit.into_emit_result(ScopeRecord { bindings: vec![] })
}

fn op(opcode: Opcode) -> Instruction {
    Instruction { opcode, operand: Operand::Nothing }
}

fn imm(opcode: Opcode, value: usize) -> Instruction {
    Instruction { opcode, operand: Operand::Immediate(value) }
}

fn atom(opcode: Opcode, index: usize) -> Instruction {
    Instruction { opcode, operand: Operand::Atom(index) }
}

fn double(index: usize) -> Instruction {
    Instruction { opcode: Opcode::Double, operand: Operand::Number(index) }
}

fn jump(opcode: Opcode, target: usize) -> Instruction {
    Instruction { opcode, operand: Operand::Target(target) }
}

fn slot(opcode: Opcode, depth: usize, index: usize) -> Instruction {
    Instruction { opcode, operand: Operand::Slot { depth, index } }
}

fn num(value: f64) -> Expression {
    Expression::LiteralNumericExpression { value: value.to_bits() }
}

fn boolean(value: bool) -> Expression {
    Expression::LiteralBooleanExpression { value }
}

fn ident(name: usize) -> Expression {
    Expression::IdentifierExpression { name }
}

fn binary(operator: BinaryOperator, left: Expression, right: Expression) -> Expression {
    Expression::BinaryExpression(BinaryExpression {
        operator,
        left: Box::new(left),
        right: Box::new(right),
    })
}

fn unary(operator: UnaryOperator, operand: Expression) -> Expression {
    Expression::UnaryExpression(UnaryExpression { operator, operand: Box::new(operand) })
}

fn assign(name: usize, value: Expression) -> Expression {
    Expression::AssignmentExpression(AssignmentExpression {
        binding: AssignmentTarget::SimpleAssignmentTarget(
            SimpleAssignmentTarget::AssignmentTargetIdentifier(name),
        ),
        expression: Box::new(value),
    })
}

fn member(object: Expression, property: usize) -> MemberExpression {
    MemberExpression::StaticMemberExpression(StaticMemberExpression {
        object: ExpressionOrSuper::Expression(Box::new(object)),
        property,
    })
}

fn element(object: Expression, key: Expression) -> MemberExpression {
    MemberExpression::ComputedMemberExpression(ComputedMemberExpression {
        object: ExpressionOrSuper::Expression(Box::new(object)),
        expression: Box::new(key),
    })
}

fn call(callee: Expression, args: Vec<Argument>) -> Expression {
    Expression::CallExpression(CallExpression {
        callee: ExpressionOrSuper::Expression(Box::new(callee)),
        arguments: Arguments { args },
    })
}

fn statement(e: Expression) -> Statement {
    Statement::ExpressionStatement(e)
}

fn declare(kind: VariableDeclarationKind, name: usize, init: Option<Expression>) -> VariableDeclaration {
    VariableDeclaration {
        kind,
        declarators: vec![VariableDeclarator { binding: Binding::BindingIdentifier(name), init }],
    }
}

fn let_(name: usize, init: Expression) -> Statement {
    Statement::VariableDeclarationStatement(declare(VariableDeclarationKind::Let, name, Some(init)))
}

fn block(statements: Vec<Statement>) -> Statement {
    Statement::BlockStatement { block: Block { statements } }
}

fn break_() -> Statement {
    Statement::BreakStatement { label: None }
}

fn continue_() -> Statement {
    Statement::ContinueStatement { label: None }
}

#[test]
fn empty_script_emits_nothing() {
    let artifact = compile(vec![]).unwrap();
    assert_eq!(artifact.code, vec![]);
    assert_eq!(artifact.atoms, vec![]);
    assert_eq!(artifact.numbers, vec![]);
    assert_eq!(artifact.regexps, vec![]);
    assert_eq!(artifact.top_scope.bindings, vec![]);
}

#[test]
fn empty_statement_emits_nothing() {
    let artifact = compile(vec![Statement::EmptyStatement, Statement::EmptyStatement]).unwrap();
    assert_eq!(artifact.code, vec![]);
}

#[test]
fn literals_have_one_instruction_each() {
    assert_eq!(compile_expression(&boolean(true)).unwrap().code, vec![op(Opcode::True)]);
    assert_eq!(compile_expression(&boolean(false)).unwrap().code, vec![op(Opcode::False)]);
    assert_eq!(
        compile_expression(&Expression::LiteralNullExpression).unwrap().code,
        vec![op(Opcode::Null)]
    );
    let string = compile_expression(&Expression::LiteralStringExpression { value: 77 }).unwrap();
    assert_eq!(string.code, vec![atom(Opcode::String, 0)]);
    assert_eq!(string.atoms, vec![77]);
}

#[test]
fn infinity_is_a_double_in_the_number_pool() {
    let artifact = compile_expression(&Expression::LiteralInfinityExpression).unwrap();
    assert_eq!(artifact.code, vec![double(0)]);
    assert_eq!(artifact.numbers, vec![f64::INFINITY.to_bits()]);
    assert_eq!(artifact.numbers, vec![0x7FF0_0000_0000_0000u64]);
}

#[test]
fn regexp_literal_goes_to_the_regexp_pool() {
    let item = RegExpItem {
        pattern: 5,
        global: true,
        ignore_case: false,
        multi_line: false,
        dot_all: false,
        sticky: true,
        unicode: false,
    };
    let e = binary(
        BinaryOperator::Comma,
        Expression::LiteralRegExpExpression(item),
        Expression::LiteralRegExpExpression(item),
    );
    let artifact = compile_expression(&e).unwrap();
    assert_eq!(
        artifact.code,
        vec![
            Instruction { opcode: Opcode::RegExp, operand: Operand::RegExp(0) },
            op(Opcode::Pop),
            Instruction { opcode: Opcode::RegExp, operand: Operand::RegExp(0) },
        ]
    );
    assert_eq!(artifact.regexps, vec![item]);
}

#[test]
fn number_pool_is_deduplicated_and_insertion_ordered() {
    // 1 + 2 + 1 + 3
    let e = binary(
        BinaryOperator::Add,
        binary(BinaryOperator::Add, binary(BinaryOperator::Add, num(1.0), num(2.0)), num(1.0)),
        num(3.0),
    );
    let artifact = compile_expression(&e).unwrap();
    assert_eq!(
        artifact.code,
        vec![
            double(0),
            double(1),
            op(Opcode::Add),
            double(0),
            op(Opcode::Add),
            double(2),
            op(Opcode::Add),
        ]
    );
    assert_eq!(artifact.numbers, vec![1.0f64.to_bits(), 2.0f64.to_bits(), 3.0f64.to_bits()]);
}

#[test]
fn atom_pool_is_deduplicated_and_insertion_ordered() {
    // y, x, y: all unbound, so looked up by name
    let e = binary(
        BinaryOperator::Comma,
        binary(BinaryOperator::Comma, ident(Y), ident(X)),
        ident(Y),
    );
    let artifact = compile_expression(&e).unwrap();
    assert_eq!(
        artifact.code,
        vec![
            atom(Opcode::GetName, 0),
            op(Opcode::Pop),
            atom(Opcode::GetName, 1),
            op(Opcode::Pop),
            atom(Opcode::GetName, 0),
        ]
    );
    assert_eq!(artifact.atoms, vec![Y, X]);
}

#[test]
fn unary_operators_follow_their_operand() {
    let cases = vec![
        (UnaryOperator::Plus, Opcode::Pos),
        (UnaryOperator::Minus, Opcode::Neg),
        (UnaryOperator::LogicalNot, Opcode::Not),
        (UnaryOperator::BitwiseNot, Opcode::BitNot),
        (UnaryOperator::Void, Opcode::Void),
    ];
    for (operator, opcode) in cases {
        let artifact = compile_expression(&unary(operator, boolean(true))).unwrap();
        assert_eq!(artifact.code, vec![op(Opcode::True), op(opcode)]);
    }
}

#[test]
fn binary_operators_follow_both_operands() {
    let cases = vec![
        (BinaryOperator::Equals, Opcode::Eq),
        (BinaryOperator::NotEquals, Opcode::Ne),
        (BinaryOperator::StrictEquals, Opcode::StrictEq),
        (BinaryOperator::StrictNotEquals, Opcode::StrictNe),
        (BinaryOperator::LessThan, Opcode::Lt),
        (BinaryOperator::LessThanOrEqual, Opcode::Le),
        (BinaryOperator::GreaterThan, Opcode::Gt),
        (BinaryOperator::GreaterThanOrEqual, Opcode::Ge),
        (BinaryOperator::In, Opcode::In),
        (BinaryOperator::Instanceof, Opcode::Instanceof),
        (BinaryOperator::LeftShift, Opcode::Lsh),
        (BinaryOperator::RightShift, Opcode::Rsh),
        (BinaryOperator::RightShiftExt, Opcode::Ursh),
        (BinaryOperator::Add, Opcode::Add),
        (BinaryOperator::Sub, Opcode::Sub),
        (BinaryOperator::Mul, Opcode::Mul),
        (BinaryOperator::Div, Opcode::Div),
        (BinaryOperator::Mod, Opcode::Mod),
        (BinaryOperator::Pow, Opcode::Pow),
        (BinaryOperator::BitwiseOr, Opcode::BitOr),
        (BinaryOperator::BitwiseXor, Opcode::BitXor),
        (BinaryOperator::BitwiseAnd, Opcode::BitAnd),
    ];
    for (operator, opcode) in cases {
        let artifact = compile_expression(&binary(operator, boolean(true), boolean(false))).unwrap();
        assert_eq!(artifact.code, vec![op(Opcode::True), op(Opcode::False), op(opcode)]);
    }
}

#[test]
fn comma_drops_the_left_value() {
    let artifact =
        compile_expression(&binary(BinaryOperator::Comma, boolean(true), boolean(false))).unwrap();
    assert_eq!(artifact.code, vec![op(Opcode::True), op(Opcode::Pop), op(Opcode::False)]);
}

#[test]
fn short_circuit_operators_jump_over_the_right_operand() {
    let cases = vec![
        (BinaryOperator::LogicalOr, Opcode::Or),
        (BinaryOperator::LogicalAnd, Opcode::And),
        (BinaryOperator::Coalesce, Opcode::Coalesce),
    ];
    for (operator, opcode) in cases {
        let e = binary(operator, boolean(true), unary(UnaryOperator::LogicalNot, boolean(false)));
        let artifact = compile_expression(&e).unwrap();
        assert_eq!(
            artifact.code,
            vec![
                op(Opcode::True),
                jump(opcode, 5),
                op(Opcode::Pop),
                op(Opcode::False),
                op(Opcode::Not),
                op(Opcode::JumpTarget),
            ]
        );
    }
}

#[test]
fn conditional_expression_has_two_arms_and_a_merge_point() {
    let e = Expression::ConditionalExpression(ConditionalExpression {
        test: Box::new(boolean(true)),
        consequent: Box::new(num(1.0)),
        alternate: Box::new(num(2.0)),
    });
    let artifact = compile_expression(&e).unwrap();
    assert_eq!(
        artifact.code,
        vec![
            op(Opcode::True),
            jump(Opcode::IfEq, 5),
            op(Opcode::JumpTarget),
            double(0),
            jump(Opcode::Goto, 7),
            op(Opcode::JumpTarget),
            double(1),
            op(Opcode::JumpTarget),
        ]
    );
}

#[test]
fn nested_conditionals_patch_every_jump() {
    // true ? (false ? 1 : 2) : (null ?? 3)
    let inner = Expression::ConditionalExpression(ConditionalExpression {
        test: Box::new(boolean(false)),
        consequent: Box::new(num(1.0)),
        alternate: Box::new(num(2.0)),
    });
    let e = Expression::ConditionalExpression(ConditionalExpression {
        test: Box::new(boolean(true)),
        consequent: Box::new(inner),
        alternate: Box::new(binary(
            BinaryOperator::Coalesce,
            Expression::LiteralNullExpression,
            num(3.0),
        )),
    });
    let artifact = compile_expression(&e).unwrap();
    assert_eq!(
        artifact.code,
        vec![
            op(Opcode::True),
            jump(Opcode::IfEq, 12),
            op(Opcode::JumpTarget),
            op(Opcode::False),
            jump(Opcode::IfEq, 8),
            op(Opcode::JumpTarget),
            double(0),
            jump(Opcode::Goto, 10),
            op(Opcode::JumpTarget),
            double(1),
            op(Opcode::JumpTarget),
            jump(Opcode::Goto, 18),
            op(Opcode::JumpTarget),
            op(Opcode::Null),
            jump(Opcode::Coalesce, 17),
            op(Opcode::Pop),
            double(2),
            op(Opcode::JumpTarget),
            op(Opcode::JumpTarget),
        ]
    );
    for instruction in &artifact.code {
        assert_ne!(instruction.operand, Operand::Unpatched);
    }
}

#[test]
fn property_and_element_reads() {
    let get_prop = Expression::MemberExpression(member(ident(X), P));
    let artifact = compile_expression(&get_prop).unwrap();
    assert_eq!(artifact.code, vec![atom(Opcode::GetName, 0), atom(Opcode::GetProp, 1)]);
    assert_eq!(artifact.atoms, vec![X, P]);

    let get_elem = Expression::MemberExpression(element(ident(X), num(0.0)));
    let artifact = compile_expression(&get_elem).unwrap();
    assert_eq!(artifact.code, vec![atom(Opcode::GetName, 0), double(0), op(Opcode::GetElem)]);
}

#[test]
fn call_through_a_name_binds_no_this() {
    let e = call(ident(F), vec![Argument::Expression(num(1.0)), Argument::Expression(num(2.0))]);
    let artifact = compile_expression(&e).unwrap();
    assert_eq!(
        artifact.code,
        vec![
            atom(Opcode::GetName, 0),
            op(Opcode::Undefined),
            double(0),
            double(1),
            imm(Opcode::Call, 2),
        ]
    );
}

#[test]
fn call_through_a_property_reuses_the_object_as_this() {
    let e = call(Expression::MemberExpression(member(ident(X), P)), vec![]);
    let artifact = compile_expression(&e).unwrap();
    assert_eq!(
        artifact.code,
        vec![atom(Opcode::GetName, 0), atom(Opcode::CallProp, 1), imm(Opcode::Call, 0)]
    );

    let e = call(
        Expression::MemberExpression(element(ident(X), num(7.0))),
        vec![Argument::Expression(boolean(true))],
    );
    let artifact = compile_expression(&e).unwrap();
    assert_eq!(
        artifact.code,
        vec![
            atom(Opcode::GetName, 0),
            double(0),
            op(Opcode::CallElem),
            op(Opcode::True),
            imm(Opcode::Call, 1),
        ]
    );
}

#[test]
fn new_emits_callee_arguments_and_count() {
    let e = Expression::NewExpression(NewExpression {
        callee: Box::new(ident(F)),
        arguments: Arguments {
            args: vec![
                Argument::Expression(num(1.0)),
                Argument::Expression(num(2.0)),
                Argument::Expression(num(3.0)),
            ],
        },
    });
    let artifact = compile_expression(&e).unwrap();
    assert_eq!(
        artifact.code,
        vec![atom(Opcode::GetName, 0), double(0), double(1), double(2), imm(Opcode::New, 3)]
    );
}

#[test]
fn assignment_writes_after_the_value() {
    let artifact = compile_expression(&assign(X, num(5.0))).unwrap();
    assert_eq!(artifact.code, vec![double(0), atom(Opcode::SetName, 0)]);
}

#[test]
fn object_literal_initialises_properties_in_source_order() {
    let data = |name: PropertyName, value: Expression| {
        ObjectProperty::NamedObjectProperty(NamedObjectProperty::DataProperty(DataProperty {
            property_name: name,
            expression: Box::new(value),
        }))
    };
    let e = Expression::ObjectExpression(ObjectExpression {
        properties: vec![
            data(PropertyName::StaticPropertyName(P), boolean(true)),
            data(PropertyName::StaticNumericPropertyName(4.0f64.to_bits()), boolean(false)),
            data(
                PropertyName::ComputedPropertyName(Box::new(ident(X))),
                Expression::LiteralNullExpression,
            ),
        ],
    });
    let artifact = compile_expression(&e).unwrap();
    assert_eq!(
        artifact.code,
        vec![
            op(Opcode::NewInit),
            op(Opcode::True),
            atom(Opcode::InitProp, 0),
            double(0),
            op(Opcode::False),
            op(Opcode::InitElem),
            atom(Opcode::GetName, 1),
            op(Opcode::Null),
            op(Opcode::InitElem),
        ]
    );
    assert_eq!(artifact.atoms, vec![P, X]);
    assert_eq!(artifact.numbers, vec![4.0f64.to_bits()]);
}

#[test]
fn array_literal_without_spread_uses_static_indices() {
    let e = Expression::ArrayExpression(ArrayExpression {
        elements: vec![
            ArrayExpressionElement::Expression(boolean(true)),
            ArrayExpressionElement::Elision,
            ArrayExpressionElement::Expression(boolean(false)),
        ],
    });
    let artifact = compile_expression(&e).unwrap();
    assert_eq!(
        artifact.code,
        vec![
            imm(Opcode::NewArray, 3),
            op(Opcode::True),
            imm(Opcode::InitElemArray, 0),
            op(Opcode::False),
            imm(Opcode::InitElemArray, 2),
        ]
    );
}

#[test]
fn array_literal_with_spread_counts_the_index_on_the_stack() {
    let e = Expression::ArrayExpression(ArrayExpression {
        elements: vec![
            ArrayExpressionElement::Expression(boolean(true)),
            ArrayExpressionElement::SpreadElement(ident(X)),
            ArrayExpressionElement::Elision,
            ArrayExpressionElement::Expression(boolean(false)),
            ArrayExpressionElement::SpreadElement(ident(Y)),
        ],
    });
    let artifact = compile_expression(&e).unwrap();
    assert_eq!(
        artifact.code,
        vec![
            imm(Opcode::NewArray, 5),
            op(Opcode::True),
            imm(Opcode::InitElemArray, 0),
            imm(Opcode::Int32, 1),
            atom(Opcode::GetName, 0),
            op(Opcode::Spread),
            op(Opcode::Hole),
            op(Opcode::InitElemInc),
            op(Opcode::False),
            op(Opcode::InitElemInc),
            atom(Opcode::GetName, 1),
            op(Opcode::Spread),
            op(Opcode::Pop),
        ]
    );
}

#[test]
fn expression_statement_pops_its_value() {
    let artifact = compile(vec![statement(Expression::LiteralNullExpression)]).unwrap();
    assert_eq!(artifact.code, vec![op(Opcode::Null), op(Opcode::Pop)]);
}

#[test]
fn throw_follows_its_operand() {
    let artifact = compile(vec![Statement::ThrowStatement { expression: num(1.0) }]).unwrap();
    assert_eq!(artifact.code, vec![double(0), op(Opcode::Throw)]);
}

#[test]
fn declaration_initialises_and_drops_the_value() {
    let artifact = compile(vec![let_(X, num(1.0))]).unwrap();
    assert_eq!(artifact.code, vec![double(0), atom(Opcode::InitGLexical, 0), op(Opcode::Pop)]);
    assert_eq!(artifact.atoms, vec![X]);
    assert_eq!(artifact.top_scope.bindings.len(), 1);
}

#[test]
fn declaration_without_initialiser_emits_nothing() {
    let artifact = compile(vec![Statement::VariableDeclarationStatement(declare(
        VariableDeclarationKind::Let,
        X,
        None,
    ))])
    .unwrap();
    assert_eq!(artifact.code, vec![]);
}

#[test]
fn declaration_in_a_block_initialises_a_frame_slot() {
    let artifact = compile(vec![block(vec![
        let_(Y, num(1.0)),
        let_(X, num(2.0)),
        statement(assign(X, ident(Y))),
    ])])
    .unwrap();
    assert_eq!(
        artifact.code,
        vec![
            double(0),
            slot(Opcode::InitLexical, 1, 0),
            op(Opcode::Pop),
            double(1),
            slot(Opcode::InitLexical, 1, 1),
            op(Opcode::Pop),
            slot(Opcode::GetLocal, 1, 0),
            slot(Opcode::SetLocal, 1, 1),
            op(Opcode::Pop),
        ]
    );
}

#[test]
fn if_without_else() {
    let artifact = compile(vec![Statement::IfStatement(IfStatement {
        test: boolean(true),
        consequent: Box::new(statement(num(1.0))),
        alternate: None,
    })])
    .unwrap();
    assert_eq!(
        artifact.code,
        vec![
            op(Opcode::True),
            jump(Opcode::IfEq, 5),
            op(Opcode::JumpTarget),
            double(0),
            op(Opcode::Pop),
            op(Opcode::JumpTarget),
        ]
    );
}

#[test]
fn if_with_else() {
    let artifact = compile(vec![Statement::IfStatement(IfStatement {
        test: boolean(true),
        consequent: Box::new(statement(num(1.0))),
        alternate: Some(Box::new(statement(num(2.0)))),
    })])
    .unwrap();
    assert_eq!(
        artifact.code,
        vec![
            op(Opcode::True),
            jump(Opcode::IfEq, 6),
            op(Opcode::JumpTarget),
            double(0),
            op(Opcode::Pop),
            jump(Opcode::Goto, 9),
            op(Opcode::JumpTarget),
            double(1),
            op(Opcode::Pop),
            op(Opcode::JumpTarget),
        ]
    );
}

#[test]
fn while_loop_with_break_and_continue() {
    // while (true) { if (false) break; continue; }
    let body = block(vec![
        Statement::IfStatement(IfStatement {
            test: boolean(false),
            consequent: Box::new(break_()),
            alternate: None,
        }),
        continue_(),
    ]);
    let artifact = compile(vec![Statement::WhileStatement(WhileStatement {
        test: boolean(true),
        block: Box::new(body),
    })])
    .unwrap();
    assert_eq!(
        artifact.code,
        vec![
            op(Opcode::LoopHead),
            op(Opcode::True),
            jump(Opcode::IfEq, 10),
            op(Opcode::False),
            jump(Opcode::IfEq, 7),
            op(Opcode::JumpTarget),
            jump(Opcode::Goto, 10),
            op(Opcode::JumpTarget),
            jump(Opcode::Goto, 0),
            jump(Opcode::Goto, 0),
            op(Opcode::JumpTarget),
        ]
    );
}

#[test]
fn do_while_loop_tests_after_the_body() {
    // do { continue; break; } while (true)
    let artifact = compile(vec![Statement::DoWhileStatement(DoWhileStatement {
        block: Box::new(block(vec![continue_(), break_()])),
        test: boolean(true),
    })])
    .unwrap();
    assert_eq!(
        artifact.code,
        vec![
            op(Opcode::LoopHead),
            jump(Opcode::Goto, 3),
            jump(Opcode::Goto, 6),
            op(Opcode::JumpTarget),
            op(Opcode::True),
            jump(Opcode::IfNe, 0),
            op(Opcode::JumpTarget),
        ]
    );
}

#[test]
fn for_loop_with_all_parts() {
    // for (x = 0; x < 3; x = x + 1) { continue; }
    let artifact = compile(vec![Statement::ForStatement(ForStatement {
        init: Some(VariableDeclarationOrExpression::Expression(assign(X, num(0.0)))),
        test: Some(binary(BinaryOperator::LessThan, ident(X), num(3.0))),
        update: Some(assign(X, binary(BinaryOperator::Add, ident(X), num(1.0)))),
        block: Box::new(block(vec![continue_()])),
    })])
    .unwrap();
    assert_eq!(
        artifact.code,
        vec![
            double(0),
            atom(Opcode::SetName, 0),
            op(Opcode::Pop),
            op(Opcode::LoopHead),
            atom(Opcode::GetName, 0),
            double(1),
            op(Opcode::Lt),
            jump(Opcode::IfEq, 16),
            jump(Opcode::Goto, 9),
            op(Opcode::JumpTarget),
            atom(Opcode::GetName, 0),
            double(2),
            op(Opcode::Add),
            atom(Opcode::SetName, 0),
            op(Opcode::Pop),
            jump(Opcode::Goto, 3),
            op(Opcode::JumpTarget),
        ]
    );
    // The exit jump lands on the last instruction, the landing point behind the loop.
    assert_eq!(artifact.code.len(), 17);
}

#[test]
fn for_loop_without_parts_loops_forever() {
    let artifact = compile(vec![Statement::ForStatement(ForStatement {
        init: None,
        test: None,
        update: None,
        block: Box::new(Statement::EmptyStatement),
    })])
    .unwrap();
    assert_eq!(
        artifact.code,
        vec![
            op(Opcode::LoopHead),
            op(Opcode::JumpTarget),
            jump(Opcode::Goto, 0),
            op(Opcode::JumpTarget),
        ]
    );
}

#[test]
fn nested_loops_patch_their_own_jumps() {
    // while (true) { while (false) { break; } break; }
    let inner = Statement::WhileStatement(WhileStatement {
        test: boolean(false),
        block: Box::new(break_()),
    });
    let artifact = compile(vec![Statement::WhileStatement(WhileStatement {
        test: boolean(true),
        block: Box::new(block(vec![inner, break_()])),
    })])
    .unwrap();
    assert_eq!(
        artifact.code,
        vec![
            op(Opcode::LoopHead),
            op(Opcode::True),
            jump(Opcode::IfEq, 11),
            op(Opcode::LoopHead),
            op(Opcode::False),
            jump(Opcode::IfEq, 8),
            jump(Opcode::Goto, 8),
            jump(Opcode::Goto, 3),
            op(Opcode::JumpTarget),
            jump(Opcode::Goto, 11),
            jump(Opcode::Goto, 0),
            op(Opcode::JumpTarget),
        ]
    );
}

#[test]
fn statements_leave_the_stack_as_it_was() {
    let program = Program::Script(Script { statements: vec![] });
    let map = generate_scope_data(&program);
    let opts = options();
    let mut emitter = AstEmitter::new(&opts, atoms(), map);
    let statements = vec![
        statement(num(1.0)),
        Statement::IfStatement(IfStatement {
            test: boolean(true),
            consequent: Box::new(statement(num(1.0))),
            alternate: Some(Box::new(statement(num(2.0)))),
        }),
        Statement::WhileStatement(WhileStatement {
            test: boolean(true),
            block: Box::new(break_()),
        }),
        Statement::ThrowStatement { expression: num(1.0) },
    ];
    for s in &statements {
        emitter.emit_statement(s).unwrap();
        assert_eq!(emitter.emit.stack_depth(), 0);
    }
}

#[test]
fn expressions_leave_one_value() {
    let expressions = vec![
        num(1.0),
        binary(BinaryOperator::Add, num(1.0), num(2.0)),
        binary(BinaryOperator::LogicalAnd, num(1.0), num(2.0)),
        assign(X, assign(Y, num(5.0))),
        call(ident(F), vec![Argument::Expression(num(1.0))]),
        Expression::ArrayExpression(ArrayExpression {
            elements: vec![ArrayExpressionElement::SpreadElement(ident(X))],
        }),
        Expression::ConditionalExpression(ConditionalExpression {
            test: Box::new(boolean(true)),
            consequent: Box::new(num(1.0)),
            alternate: Box::new(num(2.0)),
        }),
    ];
    for e in &expressions {
        // compile_expression checks the depth
        compile_expression(e).unwrap();
    }
}
