//! Runs emitted code on a small stack machine and checks what it computes.

use emitter::ast_emitter::{emit_program, AstEmitter};
use emitter::emitter::{EmitOptions, EmitResult};
use emitter::opcode::{Opcode, Operand};
use emitter::scope::{generate_scope_data, ScopeRecord};
use emitter::tree::{
    AssignmentExpression, AssignmentTarget, BinaryExpression, BinaryOperator, Binding, Block,
    CommonSourceAtomSetIndices, ConditionalExpression, DoWhileStatement, Expression, ForStatement,
    IfStatement, Program, Script, SimpleAssignmentTarget, Statement, VariableDeclaration,
    VariableDeclarationKind, VariableDeclarationOrExpression, VariableDeclarator, WhileStatement,
};

const SUM: usize = 10;
const I: usize = 11;
const X: usize = 12;
const Y: usize = 13;
const HIT: usize = 14;

#[derive(Debug, Clone, Copy, PartialEq)]
enum Value {
    Undefined,
    Null,
    Bool(bool),
    Number(f64),
}

fn truthy(value: Value) -> bool {
    match value {
        Value::Undefined | Value::Null => false,
        Value::Bool(b) => b,
        Value::Number(n) => n != 0.0 && !n.is_nan(),
    }
}

fn number(value: Value) -> f64 {
    match value {
        Value::Number(n) => n,
        Value::Bool(true) => 1.0,
        Value::Bool(false) | Value::Null => 0.0,
        Value::Undefined => f64::NAN,
    }
}

struct Machine {
    stack: Vec<Value>,
    /// Values of names, by atom.
    names: Vec<(usize, Value)>,
    /// Values of frame slots, by depth and index.
    slots: Vec<((usize, usize), Value)>,
    executed: Vec<usize>,
}

impl Machine {
    fn new() -> Machine {
        Machine { stack: vec![], names: vec![], slots: vec![], executed: vec![] }
    }

    fn name(&self, atom: usize) -> Value {
        for (a, v) in &self.names {
            if *a == atom {
                return *v;
            }
        }
        Value::Undefined
    }

    fn set_name(&mut self, atom: usize, value: Value) {
        for entry in self.names.iter_mut() {
            if entry.0 == atom {
                entry.1 = value;
                return;
            }
        }
        self.names.push((atom, value));
    }

    fn slot(&self, key: (usize, usize)) -> Value {
        for (k, v) in &self.slots {
            if *k == key {
                return *v;
            }
        }
        Value::Undefined
    }

    fn set_slot(&mut self, key: (usize, usize), value: Value) {
        for entry in self.slots.iter_mut() {
            if entry.0 == key {
                entry.1 = value;
                return;
            }
        }
        self.slots.push((key, value));
    }

    fn pop(&mut self) -> Value {
        self.stack.pop().expect("operand stack underflow")
    }

    fn run(&mut self, artifact: &EmitResult) {
        let mut pc = 0;
        let mut steps = 0;
        while pc < artifact.code.len() {
            steps += 1;
            assert!(steps < 10_000, "the program does not terminate");
            self.executed.push(pc);
            let instruction = artifact.code[pc];
            let mut next = pc + 1;
            let target = match instruction.operand {
                Operand::Target(t) => Some(t),
                Operand::Unpatched => panic!("unpatched jump at {}", pc),
                _ => None,
            };
            match instruction.opcode {
                Opcode::Undefined => self.stack.push(Value::Undefined),
                Opcode::Null => self.stack.push(Value::Null),
                Opcode::True => self.stack.push(Value::Bool(true)),
                Opcode::False => self.stack.push(Value::Bool(false)),
                Opcode::Double => match instruction.operand {
                    Operand::Number(i) => {
                        self.stack.push(Value::Number(f64::from_bits(artifact.numbers[i])))
                    }
                    _ => panic!("double without a pool index"),
                },
                Opcode::Not => {
                    let v = self.pop();
                    self.stack.push(Value::Bool(!truthy(v)));
                }
                Opcode::Add | Opcode::Sub | Opcode::Mul | Opcode::Lt | Opcode::StrictEq => {
                    let right = number(self.pop());
                    let left = number(self.pop());
                    self.stack.push(match instruction.opcode {
                        Opcode::Add => Value::Number(left + right),
                        Opcode::Sub => Value::Number(left - right),
                        Opcode::Mul => Value::Number(left * right),
                        Opcode::Lt => Value::Bool(left < right),
                        _ => Value::Bool(left == right),
                    });
                }
                Opcode::Pop => {
                    self.pop();
                }
                Opcode::JumpTarget | Opcode::LoopHead => {}
                Opcode::Goto => next = target.unwrap(),
                Opcode::IfEq => {
                    if !truthy(self.pop()) {
                        next = target.unwrap();
                    }
                }
                Opcode::IfNe => {
                    if truthy(self.pop()) {
                        next = target.unwrap();
                    }
                }
                Opcode::Or => {
                    if truthy(*self.stack.last().unwrap()) {
                        next = target.unwrap();
                    }
                }
                Opcode::And => {
                    if !truthy(*self.stack.last().unwrap()) {
                        next = target.unwrap();
                    }
                }
                Opcode::Coalesce => {
                    let top = *self.stack.last().unwrap();
                    if top != Value::Null && top != Value::Undefined {
                        next = target.unwrap();
                    }
                }
                Opcode::GetGName | Opcode::GetName => match instruction.operand {
                    Operand::Atom(i) => {
                        let v = self.name(artifact.atoms[i]);
                        self.stack.push(v);
                    }
                    _ => panic!("name without a pool index"),
                },
                Opcode::SetGName | Opcode::SetName | Opcode::InitGLexical => {
                    match instruction.operand {
                        Operand::Atom(i) => {
                            let v = *self.stack.last().unwrap();
                            self.set_name(artifact.atoms[i], v);
                        }
                        _ => panic!("name without a pool index"),
                    }
                }
                Opcode::GetLocal => match instruction.operand {
                    Operand::Slot { depth, index } => {
                        let v = self.slot((depth, index));
                        self.stack.push(v);
                    }
                    _ => panic!("local without a slot"),
                },
                Opcode::SetLocal | Opcode::InitLexical => match instruction.operand {
                    Operand::Slot { depth, index } => {
                        let v = *self.stack.last().unwrap();
                        self.set_slot((depth, index), v);
                    }
                    _ => panic!("local without a slot"),
                },
                other => panic!("the machine has no {:?}", other),
            }
            pc = next;
        }
    }
}

fn atoms() -> CommonSourceAtomSetIndices {
    CommonSourceAtomSetIndices { eval: 0 }
}

fn compile(statements: Vec<Statement>) -> EmitResult {
    let program = Program::Script(Script { statements });
    let map = generate_scope_data(&program);
    emit_program(&program, &EmitOptions { strict: false }, atoms(), map).unwrap()
}

fn compile_expression(e: &Expression) -> EmitResult {
    let program = Program::Script(Script { statements: vec![] });
    let map = generate_scope_data(&program);
    let opts = EmitOptions { strict: false };
    let mut emitter = AstEmitter::new(&opts, atoms(), map);
    emitter.emit_expression(e).unwrap();
    emitter.emit.into_emit_result(ScopeRecord { bindings: vec![] }).unwrap()
}

fn num(value: f64) -> Expression {
    Expression::LiteralNumericExpression { value: value.to_bits() }
}

fn boolean(value: bool) -> Expression {
    Expression::LiteralBooleanExpression { value }
}

fn ident(name: usize) -> Expression {
    Expression::IdentifierExpression { name }
}

fn binary(operator: BinaryOperator, left: Expression, right: Expression) -> Expression {
    Expression::BinaryExpression(BinaryExpression {
        operator,
        left: Box::new(left),
        right: Box::new(right),
    })
}

fn assign(name: usize, value: Expression) -> Expression {
    Expression::AssignmentExpression(AssignmentExpression {
        binding: AssignmentTarget::SimpleAssignmentTarget(
            SimpleAssignmentTarget::AssignmentTargetIdentifier(name),
        ),
        expression: Box::new(value),
    })
}

fn statement(e: Expression) -> Statement {
    Statement::ExpressionStatement(e)
}

fn let_(name: usize, init: Expression) -> Statement {
    Statement::VariableDeclarationStatement(VariableDeclaration {
        kind: VariableDeclarationKind::Let,
        declarators: vec![VariableDeclarator {
            binding: Binding::BindingIdentifier(name),
            init: Some(init),
        }],
    })
}

fn block(statements: Vec<Statement>) -> Statement {
    Statement::BlockStatement { block: Block { statements } }
}

fn if_(test: Expression, consequent: Statement, alternate: Option<Statement>) -> Statement {
    Statement::IfStatement(IfStatement {
        test,
        consequent: Box::new(consequent),
        alternate: alternate.map(Box::new),
    })
}

/// `for (let i = 0; i < 3; i = i + 1) { <body> }`
fn counting_loop(body: Vec<Statement>) -> Statement {
    Statement::ForStatement(ForStatement {
        init: Some(VariableDeclarationOrExpression::VariableDeclaration(VariableDeclaration {
            kind: VariableDeclarationKind::Let,
            declarators: vec![VariableDeclarator {
                binding: Binding::BindingIdentifier(I),
                init: Some(num(0.0)),
            }],
        })),
        test: Some(binary(BinaryOperator::LessThan, ident(I), num(3.0))),
        update: Some(assign(I, binary(BinaryOperator::Add, ident(I), num(1.0)))),
        block: Box::new(block(body)),
    })
}

fn add_i_to_sum() -> Statement {
    statement(assign(SUM, binary(BinaryOperator::Add, ident(SUM), ident(I))))
}

fn run_with_sum(statements: Vec<Statement>) -> f64 {
    let artifact = compile(statements);
    let mut machine = Machine::new();
    machine.set_name(SUM, Value::Number(0.0));
    machine.run(&artifact);
    assert_eq!(machine.stack, vec![]);
    number(machine.name(SUM))
}

#[test]
fn if_else_runs_exactly_one_branch() {
    for test in [true, false] {
        let artifact = compile(vec![if_(
            boolean(test),
            statement(assign(X, num(1.0))),
            Some(statement(assign(Y, num(2.0)))),
        )]);
        let mut machine = Machine::new();
        machine.run(&artifact);
        assert_eq!(machine.stack, vec![]);
        if test {
            assert_eq!(machine.name(X), Value::Number(1.0));
            assert_eq!(machine.name(Y), Value::Undefined);
        } else {
            assert_eq!(machine.name(X), Value::Undefined);
            assert_eq!(machine.name(Y), Value::Number(2.0));
        }
    }
}

#[test]
fn if_without_else_skips_the_branch_on_false() {
    for test in [true, false] {
        let artifact = compile(vec![if_(boolean(test), statement(assign(X, num(1.0))), None)]);
        let mut machine = Machine::new();
        machine.run(&artifact);
        assert_eq!(machine.name(X), if test { Value::Number(1.0) } else { Value::Undefined });
    }
}

#[test]
fn conditional_expression_yields_the_chosen_arm() {
    for test in [true, false] {
        let e = Expression::ConditionalExpression(ConditionalExpression {
            test: Box::new(boolean(test)),
            consequent: Box::new(assign(X, num(1.0))),
            alternate: Box::new(assign(Y, num(2.0))),
        });
        let mut machine = Machine::new();
        machine.run(&compile_expression(&e));
        assert_eq!(machine.stack, vec![Value::Number(if test { 1.0 } else { 2.0 })]);
        assert_eq!(machine.name(X), if test { Value::Number(1.0) } else { Value::Undefined });
        assert_eq!(machine.name(Y), if test { Value::Undefined } else { Value::Number(2.0) });
    }
}

/// Runs `left op (hit = 7)` and returns the value it leaves and whether
/// the right operand ran.
fn short_circuit(operator: BinaryOperator, left: Expression) -> (Value, bool) {
    let e = binary(operator, left, assign(HIT, num(7.0)));
    let mut machine = Machine::new();
    machine.run(&compile_expression(&e));
    assert_eq!(machine.stack.len(), 1);
    (machine.stack[0], machine.name(HIT) == Value::Number(7.0))
}

#[test]
fn logical_or_skips_the_right_operand_when_the_left_is_truthy() {
    assert_eq!(short_circuit(BinaryOperator::LogicalOr, num(3.0)), (Value::Number(3.0), false));
    assert_eq!(short_circuit(BinaryOperator::LogicalOr, boolean(true)), (Value::Bool(true), false));
    assert_eq!(short_circuit(BinaryOperator::LogicalOr, num(0.0)), (Value::Number(7.0), true));
    assert_eq!(short_circuit(BinaryOperator::LogicalOr, boolean(false)), (Value::Number(7.0), true));
}

#[test]
fn logical_and_skips_the_right_operand_when_the_left_is_falsy() {
    assert_eq!(short_circuit(BinaryOperator::LogicalAnd, num(0.0)), (Value::Number(0.0), false));
    assert_eq!(
        short_circuit(BinaryOperator::LogicalAnd, Expression::LiteralNullExpression),
        (Value::Null, false)
    );
    assert_eq!(short_circuit(BinaryOperator::LogicalAnd, num(3.0)), (Value::Number(7.0), true));
}

#[test]
fn coalesce_skips_the_right_operand_unless_the_left_is_nullish() {
    assert_eq!(short_circuit(BinaryOperator::Coalesce, num(0.0)), (Value::Number(0.0), false));
    assert_eq!(short_circuit(BinaryOperator::Coalesce, boolean(false)), (Value::Bool(false), false));
    assert_eq!(
        short_circuit(BinaryOperator::Coalesce, Expression::LiteralNullExpression),
        (Value::Number(7.0), true)
    );
    assert_eq!(short_circuit(BinaryOperator::Coalesce, ident(X)), (Value::Number(7.0), true));
}

#[test]
fn for_loop_sums_zero_one_two() {
    assert_eq!(run_with_sum(vec![counting_loop(vec![add_i_to_sum()])]), 3.0);
}

#[test]
fn break_leaves_the_loop_early() {
    // if (i == 2) break; sum = sum + i    =>  0 + 1
    let body = vec![
        if_(binary(BinaryOperator::StrictEquals, ident(I), num(2.0)), Statement::BreakStatement { label: None }, None),
        add_i_to_sum(),
    ];
    assert_eq!(run_with_sum(vec![counting_loop(body)]), 1.0);
}

#[test]
fn continue_skips_the_rest_of_the_body_but_not_the_update() {
    // if (i == 1) continue; sum = sum + i    =>  0 + 2
    let body = vec![
        if_(
            binary(BinaryOperator::StrictEquals, ident(I), num(1.0)),
            Statement::ContinueStatement { label: None },
            None,
        ),
        add_i_to_sum(),
    ];
    assert_eq!(run_with_sum(vec![counting_loop(body)]), 2.0);
}

#[test]
fn while_loop_counts_down() {
    // x = 3; while (x) { sum = sum + x; x = x - 1; }   =>  3 + 2 + 1
    let body = block(vec![
        statement(assign(SUM, binary(BinaryOperator::Add, ident(SUM), ident(X)))),
        statement(assign(X, binary(BinaryOperator::Sub, ident(X), num(1.0)))),
    ]);
    let program = vec![
        statement(assign(X, num(3.0))),
        Statement::WhileStatement(WhileStatement { test: ident(X), block: Box::new(body) }),
    ];
    assert_eq!(run_with_sum(program), 6.0);
}

#[test]
fn do_while_runs_its_body_before_the_test() {
    // do { sum = sum + 5; } while (false)
    let body = block(vec![statement(assign(
        SUM,
        binary(BinaryOperator::Add, ident(SUM), num(5.0)),
    ))]);
    let program = vec![Statement::DoWhileStatement(DoWhileStatement {
        block: Box::new(body),
        test: boolean(false),
    })];
    assert_eq!(run_with_sum(program), 5.0);
}

#[test]
fn continue_in_do_while_reaches_the_test() {
    // x = 0; do { x = x + 1; if (x < 3) continue; break; } while (true)
    let body = block(vec![
        statement(assign(X, binary(BinaryOperator::Add, ident(X), num(1.0)))),
        if_(
            binary(BinaryOperator::LessThan, ident(X), num(3.0)),
            Statement::ContinueStatement { label: None },
            None,
        ),
        Statement::BreakStatement { label: None },
    ]);
    let artifact = compile(vec![
        statement(assign(X, num(0.0))),
        Statement::DoWhileStatement(DoWhileStatement { block: Box::new(body), test: boolean(true) }),
    ]);
    let mut machine = Machine::new();
    machine.run(&artifact);
    assert_eq!(machine.name(X), Value::Number(3.0));
}

#[test]
fn nested_assignment_is_a_value_and_updates_both_names() {
    // x = (y = 5)
    let e = assign(X, assign(Y, num(5.0)));
    let mut machine = Machine::new();
    machine.run(&compile_expression(&e));
    assert_eq!(machine.stack, vec![Value::Number(5.0)]);
    assert_eq!(machine.name(X), Value::Number(5.0));
    assert_eq!(machine.name(Y), Value::Number(5.0));
}

#[test]
fn inner_binding_shadows_the_outer_one_only_inside_its_block() {
    // let x = 1; { let x = 2; y = x; } sum = x;
    let artifact = compile(vec![
        let_(X, num(1.0)),
        block(vec![let_(X, num(2.0)), statement(assign(Y, ident(X)))]),
        statement(assign(SUM, ident(X))),
    ]);
    let mut machine = Machine::new();
    machine.run(&artifact);
    assert_eq!(machine.name(Y), Value::Number(2.0));
    assert_eq!(machine.name(SUM), Value::Number(1.0));
    assert_eq!(machine.name(X), Value::Number(1.0));
    assert_eq!(machine.slot((1, 0)), Value::Number(2.0));
}

#[test]
fn every_jump_of_an_artifact_lands_on_a_marked_point() {
    let artifact = compile(vec![counting_loop(vec![
        if_(
            binary(BinaryOperator::LogicalOr, ident(X), ident(Y)),
            Statement::ContinueStatement { label: None },
            Some(Statement::BreakStatement { label: None }),
        ),
        add_i_to_sum(),
    ])]);
    for instruction in &artifact.code {
        match instruction.operand {
            Operand::Unpatched => panic!("unpatched jump"),
            Operand::Target(t) => {
                let landing = artifact.code[t].opcode;
                assert!(landing == Opcode::JumpTarget || landing == Opcode::LoopHead);
            }
            _ => {}
        }
    }
}
