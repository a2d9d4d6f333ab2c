//! What holds of every emission.
//!
//! Emission only appends: what a construct writes comes behind what was
//! there, is as long as the size of the construct says, and moves the
//! operand stack by one value for an expression and by none for a
//! statement. The layout of the branching constructs follows from that.

use vstd::prelude::*;
use crate::control_structures::LoopTargets;
use crate::emission::{arguments_size, array_elements_size, binary_size, callee_size,
    declarators_size, emit_arguments, emit_array_elements, emit_array_expression,
    emit_assignment_expression, emit_binary_expression, emit_call_expression, emit_callee,
    emit_conditional_expression, emit_declaration_assignment, emit_declarators, emit_do_while,
    emit_expression, emit_for, emit_for_init, emit_if, emit_member_expression, emit_new_expression,
    emit_object_expression, emit_object_properties, emit_object_property, emit_program, emit_script,
    emit_short_circuit, emit_statement, emit_statements, emit_while, expression_size, for_init_size,
    if_size, member_size, optional_size, properties_size, property_size, short_circuit_jump,
    statement_size, statements_size, unsupported, EmitContext, EmitState};
use crate::emitter::EmitError;
use crate::emitter_scope::{lemma_resolve_from_prefix, resolve, spec_enter, NameLocation,
    ScopeStackView};
use crate::opcode::{Instruction, JumpKind, Opcode, Operand};
use crate::scope::{binding_index, has_lexical_duplicate, lemma_first_lexical_duplicate,
    scope_data, BindingName};
use crate::scope_pass::{declared_list, nested_records, nested_records_list};
use crate::tree::{Argument, ArrayExpression, ArrayExpressionElement, AssignmentExpression,
    AssignmentTarget, BinaryExpression, BinaryOperator, Binding, Block, CallExpression,
    ConditionalExpression, DoWhileStatement, Expression, ExpressionOrSuper, ForStatement,
    IfStatement, MemberExpression, NamedObjectProperty, NewExpression, ObjectExpression,
    ObjectProperty, Program, PropertyName, Script, SimpleAssignmentTarget, SourceAtomSetIndex,
    Statement, UnaryOperator, VariableDeclaration, VariableDeclarationOrExpression,
    VariableDeclarator, WhileStatement};

verus! {

/// Whether the instruction at `at` marks a point a jump may land on.
pub open spec fn is_landing(code: Seq<Instruction>, at: int) -> bool {
    0 <= at < code.len() && (code[at].opcode == Opcode::JumpTarget || code[at].opcode
        == Opcode::LoopHead)
}

/// Whether `target` is where the `break` or the `continue` jumps of the
/// innermost of `loops` land.
pub open spec fn leaves_loop(loops: Seq<LoopTargets>, target: usize) -> bool {
    loops.len() > 0 && (target == loops.last().break_target as usize || target
        == loops.last().continue_target as usize)
}

/// `after` is `before` with `size` instructions appended and `pushed`
/// more values on the operand stack; the open scopes and loops are the
/// same. Every jump among the appended instructions lands on a marked
/// point among them, or is a `break` or `continue` of the innermost loop.
pub open spec fn extends(before: EmitState, after: EmitState, size: nat, pushed: int) -> bool {
    &&& after.offset() == before.offset() + size
    &&& forall|i: int|
        0 <= i < before.offset() ==> (#[trigger] after.writer.code[i]) == before.writer.code[i]
    &&& after.writer.depth == before.writer.depth + pushed
    &&& after.scopes.frames == before.scopes.frames
    &&& after.loops == before.loops
    &&& after.offset() <= usize::MAX ==> forall|i: int|
        before.offset() <= i < after.offset() && (#[trigger] after.writer.code[i]).opcode.is_jump()
            ==> lands(before, after, after.writer.code[i].operand)
}

/// Whether `operand` is a target among the instructions `after` has more
/// than `before`, and a marked point, or else a target of the innermost
/// loop.
pub open spec fn lands(before: EmitState, after: EmitState, operand: Operand) -> bool {
    match operand {
        Operand::Target(target) => (before.offset() <= target && is_landing(
            after.writer.code,
            target as int,
        )) || leaves_loop(before.loops, target),
        _ => false,
    }
}

/// A successful emission extends the state it started in.
pub open spec fn grows(
    before: EmitState,
    result: Result<EmitState, EmitError>,
    size: nat,
    pushed: int,
) -> bool {
    result matches Ok(after) ==> extends(before, after, size, pushed)
}

/// What holds of the emission of anything made of expressions only: when
/// it succeeds it extends the state and leaves the scope stack alone, and
/// when it fails it does so because of a construct without bytecode.
pub open spec fn grows_expression(
    before: EmitState,
    result: Result<EmitState, EmitError>,
    size: nat,
    pushed: int,
) -> bool {
    match result {
        Ok(after) => extends(before, after, size, pushed) && after.scopes == before.scopes,
        Err(err) => err is NotImplemented,
    }
}

/// An accepted expression appends as many instructions as its size says
/// and leaves one value more on the operand stack. An expression is only
/// ever rejected for a construct without bytecode.
pub proof fn lemma_expression_extends(ctx: EmitContext, e: Expression, s: EmitState)
    ensures
        grows_expression(s, emit_expression(ctx, e, s), expression_size(e), 1),
    decreases e, 0nat,
{
    match e {
        Expression::ArrayExpression(array) => {
            lemma_array_extends(ctx, array, s);
        },
        Expression::AssignmentExpression(assignment) => {
            lemma_assignment_extends(ctx, assignment, s);
        },
        Expression::BinaryExpression(binary) => {
            lemma_binary_extends(ctx, binary, s);
        },
        Expression::CallExpression(call) => {
            lemma_call_extends(ctx, call, s);
        },
        Expression::ConditionalExpression(conditional) => {
            lemma_conditional_extends(ctx, conditional, s);
        },
        Expression::MemberExpression(member) => {
            lemma_member_extends(ctx, member, s);
        },
        Expression::NewExpression(new) => {
            lemma_new_extends(ctx, new, s);
        },
        Expression::ObjectExpression(object) => {
            lemma_object_extends(ctx, object, s);
        },
        Expression::UnaryExpression(unary) => {
            lemma_expression_extends(ctx, *unary.operand, s);
        },
        _ => {},
    }
}

/// An accepted assignment leaves the assigned value on the operand stack.
pub proof fn lemma_assignment_extends(
    ctx: EmitContext,
    assignment: AssignmentExpression,
    s: EmitState,
)
    ensures
        grows_expression(
            s,
            emit_assignment_expression(ctx, assignment, s),
            expression_size(*assignment.expression) + 1,
            1,
        ),
    decreases assignment, 0nat,
{
    match assignment.binding {
        AssignmentTarget::SimpleAssignmentTarget(
            SimpleAssignmentTarget::AssignmentTargetIdentifier(name),
        ) => {
            lemma_expression_extends(ctx, *assignment.expression, s);
        },
        _ => {},
    }
}

/// An accepted call leaves its result in place of the callee, the `this`
/// value and the arguments.
pub proof fn lemma_call_extends(ctx: EmitContext, call: CallExpression, s: EmitState)
    ensures
        grows_expression(
            s,
            emit_call_expression(ctx, call, s),
            callee_size(call.callee) + arguments_size(call.arguments.args@, 0) + 1,
            1,
        ),
    decreases call, 0nat,
{
    assert(call.arguments.args.len() == call.arguments.args@.len());
    lemma_callee_extends(ctx, call.callee, s);
    match emit_callee(ctx, call.callee, s) {
        Ok(s1) => {
            lemma_arguments_extend(ctx, call.arguments.args@, 0, s1);
        },
        Err(_) => {},
    }
}

/// An accepted `new` leaves the constructed value.
pub proof fn lemma_new_extends(ctx: EmitContext, new: NewExpression, s: EmitState)
    ensures
        grows_expression(
            s,
            emit_new_expression(ctx, new, s),
            expression_size(*new.callee) + arguments_size(new.arguments.args@, 0) + 1,
            1,
        ),
    decreases new, 0nat,
{
    assert(new.arguments.args.len() == new.arguments.args@.len());
    lemma_expression_extends(ctx, *new.callee, s);
    match emit_expression(ctx, *new.callee, s) {
        Ok(s1) => {
            lemma_arguments_extend(ctx, new.arguments.args@, 0, s1);
        },
        Err(_) => {},
    }
}

/// An accepted object literal leaves the object.
pub proof fn lemma_object_extends(ctx: EmitContext, object: ObjectExpression, s: EmitState)
    ensures
        grows_expression(
            s,
            emit_object_expression(ctx, object, s),
            1 + properties_size(object.properties@, 0),
            1,
        ),
    decreases object, 0nat,
{
    lemma_properties_extend(ctx, object.properties@, 0, s.op(Opcode::NewInit));
}

/// An accepted binary expression leaves one value.
pub proof fn lemma_binary_extends(ctx: EmitContext, binary: BinaryExpression, s: EmitState)
    ensures
        grows_expression(s, emit_binary_expression(ctx, binary, s), binary_size(binary), 1),
    decreases binary, 1nat,
{
    lemma_expression_extends(ctx, *binary.left, s);
    match emit_expression(ctx, *binary.left, s) {
        Ok(s1) => {
            match binary.operator {
                BinaryOperator::Coalesce
                | BinaryOperator::LogicalOr
                | BinaryOperator::LogicalAnd => {
                    lemma_short_circuit_layout(ctx, binary, s);
                },
                BinaryOperator::Comma => {
                    lemma_expression_extends(ctx, *binary.right, s1.op(Opcode::Pop));
                },
                _ => {
                    lemma_expression_extends(ctx, *binary.right, s1);
                },
            }
        },
        Err(_) => {},
    }
}

/// The shape of a short-circuit operator. Behind the left operand stands
/// the operator's jump, which lands on the last instruction of the whole
/// expression; the instructions of the right operand all lie between the
/// jump and its target, so a taken jump skips them with the left value on
/// the stack. When the jump is not taken the left value is dropped and the
/// right operand leaves its value in the same place.
pub proof fn lemma_short_circuit_layout(ctx: EmitContext, binary: BinaryExpression, s: EmitState)
    requires
        short_circuit_jump(binary.operator) is Some,
    ensures
        emit_binary_expression(ctx, binary, s) == emit_short_circuit(ctx, binary, s),
        grows_expression(s, emit_short_circuit(ctx, binary, s), binary_size(binary), 1),
        emit_short_circuit(ctx, binary, s) matches Ok(end) ==> {
            &&& emit_expression(ctx, *binary.left, s) matches Ok(left)
            &&& left.writer.depth == s.writer.depth + 1
            &&& end.writer.code[left.offset()] == (Instruction {
                opcode: short_circuit_jump(binary.operator).unwrap().spec_opcode(),
                operand: Operand::Target((end.offset() - 1) as usize),
            })
            &&& end.writer.code[left.offset() + 1] == (Instruction {
                opcode: Opcode::Pop,
                operand: Operand::Nothing,
            })
            &&& end.writer.code[end.offset() - 1] == (Instruction {
                opcode: Opcode::JumpTarget,
                operand: Operand::Nothing,
            })
            &&& emit_expression(
                ctx,
                *binary.right,
                left.jump(short_circuit_jump(binary.operator).unwrap(), end.offset() - 1).op(
                    Opcode::Pop,
                ),
            ) matches Ok(right)
            &&& right.offset() == end.offset() - 1
            &&& right.offset() == left.offset() + 2 + expression_size(*binary.right)
            &&& right.writer.depth == left.writer.depth
        },
    decreases binary, 0nat,
{
    lemma_expression_extends(ctx, *binary.left, s);
    match emit_expression(ctx, *binary.left, s) {
        Ok(s1) => {
            let merge = s1.offset() + 2 + expression_size(*binary.right);
            let s2 = s1.jump(short_circuit_jump(binary.operator).unwrap(), merge).op(Opcode::Pop);
            lemma_expression_extends(ctx, *binary.right, s2);
            match emit_expression(ctx, *binary.right, s2) {
                Ok(s3) => {
                    let end = s3.op(Opcode::JumpTarget);
                    assert(end.writer.code[s1.offset()] == s2.writer.code[s1.offset()]);
                    assert(end.writer.code[s1.offset() + 1] == s2.writer.code[s1.offset() + 1]);
                },
                Err(_) => {},
            }
        },
        Err(_) => {},
    }
}

/// The shape of a conditional expression: the jump on a false test lands
/// on the alternate's first instruction, and the consequent ends in an
/// unconditional jump behind the alternate. Either arm leaves one value.
pub proof fn lemma_conditional_extends(
    ctx: EmitContext,
    conditional: ConditionalExpression,
    s: EmitState,
)
    ensures
        grows_expression(
            s,
            emit_conditional_expression(ctx, conditional, s),
            expression_size(*conditional.test) + expression_size(*conditional.consequent)
                + expression_size(*conditional.alternate) + 5,
            1,
        ),
        emit_conditional_expression(ctx, conditional, s) matches Ok(end) ==> {
            &&& emit_expression(ctx, *conditional.test, s) matches Ok(tested)
            &&& {
                let otherwise = tested.offset() + 2 + expression_size(*conditional.consequent) + 1;
                &&& end.writer.code[tested.offset()] == (Instruction {
                    opcode: Opcode::IfEq,
                    operand: Operand::Target(otherwise as usize),
                })
                &&& end.writer.code[otherwise - 1] == (Instruction {
                    opcode: Opcode::Goto,
                    operand: Operand::Target((end.offset() - 1) as usize),
                })
                &&& end.writer.code[otherwise].opcode == Opcode::JumpTarget
                &&& end.writer.code[end.offset() - 1].opcode == Opcode::JumpTarget
                &&& end.offset() - 1 == otherwise + 1 + expression_size(*conditional.alternate)
            }
        },
    decreases conditional, 0nat,
{
    lemma_expression_extends(ctx, *conditional.test, s);
    match emit_expression(ctx, *conditional.test, s) {
        Ok(s1) => {
            let otherwise = s1.offset() + 2 + expression_size(*conditional.consequent) + 1;
            let merge = otherwise + 1 + expression_size(*conditional.alternate);
            let s2 = s1.jump(JumpKind::IfEq, otherwise).op(Opcode::JumpTarget);
            lemma_expression_extends(ctx, *conditional.consequent, s2);
            match emit_expression(ctx, *conditional.consequent, s2) {
                Ok(s3) => {
                    let s4 = s3.jump(JumpKind::Goto, merge).with_depth(s2.writer.depth).op(
                        Opcode::JumpTarget,
                    );
                    lemma_expression_extends(ctx, *conditional.alternate, s4);
                    match emit_expression(ctx, *conditional.alternate, s4) {
                        Ok(s5) => {
                            let end = s5.op(Opcode::JumpTarget);
                            assert(s3.writer.code[s1.offset()] == s2.writer.code[s1.offset()]);
                            assert(s5.writer.code[s1.offset()] == s4.writer.code[s1.offset()]);
                            assert(s5.writer.code[otherwise - 1] == s4.writer.code[otherwise - 1]);
                            assert(s5.writer.code[otherwise] == s4.writer.code[otherwise]);
                        },
                        Err(_) => {},
                    }
                },
                Err(_) => {},
            }
        },
        Err(_) => {},
    }
}

/// An accepted property or element read leaves the value read.
pub proof fn lemma_member_extends(ctx: EmitContext, member: MemberExpression, s: EmitState)
    ensures
        grows_expression(s, emit_member_expression(ctx, member, s), member_size(member), 1),
    decreases member, 0nat,
{
    match member {
        MemberExpression::ComputedMemberExpression(computed) => match computed.object {
            ExpressionOrSuper::Expression(object) => {
                lemma_expression_extends(ctx, *object, s);
                match emit_expression(ctx, *object, s) {
                    Ok(s1) => {
                        lemma_expression_extends(ctx, *computed.expression, s1);
                    },
                    Err(_) => {},
                }
            },
            ExpressionOrSuper::Super => {},
        },
        MemberExpression::StaticMemberExpression(fixed) => match fixed.object {
            ExpressionOrSuper::Expression(object) => {
                lemma_expression_extends(ctx, *object, s);
            },
            ExpressionOrSuper::Super => {},
        },
        MemberExpression::PrivateFieldExpression => {},
    }
}

/// An accepted callee leaves two values: the function and the `this` of the call.
pub proof fn lemma_callee_extends(ctx: EmitContext, callee: ExpressionOrSuper, s: EmitState)
    ensures
        grows_expression(s, emit_callee(ctx, callee, s), callee_size(callee), 2),
    decreases callee, 0nat,
{
    match callee {
        ExpressionOrSuper::Expression(expression) => match *expression {
            Expression::MemberExpression(MemberExpression::StaticMemberExpression(fixed)) => {
                match fixed.object {
                    ExpressionOrSuper::Expression(object) => {
                        lemma_expression_extends(ctx, *object, s);
                    },
                    ExpressionOrSuper::Super => {},
                }
            },
            Expression::MemberExpression(MemberExpression::ComputedMemberExpression(computed)) => {
                match computed.object {
                    ExpressionOrSuper::Expression(object) => {
                        lemma_expression_extends(ctx, *object, s);
                        match emit_expression(ctx, *object, s) {
                            Ok(s1) => {
                                lemma_expression_extends(ctx, *computed.expression, s1);
                            },
                            Err(_) => {},
                        }
                    },
                    ExpressionOrSuper::Super => {},
                }
            },
            _ => {},
        },
        ExpressionOrSuper::Super => {},
    }
}

/// Accepted arguments leave one value each.
pub proof fn lemma_arguments_extend(
    ctx: EmitContext,
    arguments: Seq<Argument>,
    from: int,
    s: EmitState,
)
    requires
        0 <= from <= arguments.len(),
    ensures
        grows_expression(
            s,
            emit_arguments(ctx, arguments, from, s),
            arguments_size(arguments, from),
            arguments.len() - from,
        ),
    decreases arguments, arguments.len() - from,
{
    if from < arguments.len() {
        match arguments[from] {
            Argument::Expression(e) => {
                lemma_expression_extends(ctx, e, s);
                match emit_expression(ctx, e, s) {
                    Ok(s1) => {
                        lemma_arguments_extend(ctx, arguments, from + 1, s1);
                    },
                    Err(_) => {},
                }
            },
            Argument::SpreadElement(_) => {},
        }
    }
}

/// An accepted property of an object literal leaves the object on top.
pub proof fn lemma_property_extends(ctx: EmitContext, property: ObjectProperty, s: EmitState)
    requires
        s.writer.depth >= 1,
    ensures
        grows_expression(s, emit_object_property(ctx, property, s), property_size(property), 0),
    decreases property, 0nat,
{
    match property {
        ObjectProperty::NamedObjectProperty(NamedObjectProperty::DataProperty(data)) => {
            match data.property_name {
                PropertyName::StaticPropertyName(key) => {
                    lemma_expression_extends(ctx, *data.expression, s);
                },
                PropertyName::StaticNumericPropertyName(key) => {
                    lemma_expression_extends(ctx, *data.expression, s.number(Opcode::Double, key));
                },
                PropertyName::ComputedPropertyName(key) => {
                    lemma_expression_extends(ctx, *key, s);
                    match emit_expression(ctx, *key, s) {
                        Ok(s1) => {
                            lemma_expression_extends(ctx, *data.expression, s1);
                        },
                        Err(_) => {},
                    }
                },
            }
        },
        _ => {},
    }
}

/// Accepted properties leave the object on top.
pub proof fn lemma_properties_extend(
    ctx: EmitContext,
    properties: Seq<ObjectProperty>,
    from: int,
    s: EmitState,
)
    requires
        0 <= from <= properties.len(),
        s.writer.depth >= 1,
    ensures
        grows_expression(
            s,
            emit_object_properties(ctx, properties, from, s),
            properties_size(properties, from),
            0,
        ),
    decreases properties, properties.len() - from,
{
    if from < properties.len() {
        lemma_property_extends(ctx, properties[from], s);
        match emit_object_property(ctx, properties[from], s) {
            Ok(s1) => {
                lemma_properties_extend(ctx, properties, from + 1, s1);
            },
            Err(_) => {},
        }
    }
}

/// Accepted elements leave the array on top: the index that is counted
/// on the stack once a spread element has come by is dropped at the end.
pub proof fn lemma_array_elements_extend(
    ctx: EmitContext,
    elements: Seq<ArrayExpressionElement>,
    from: int,
    spread: bool,
    s: EmitState,
)
    requires
        0 <= from <= elements.len(),
        s.writer.depth >= (if spread {
            2int
        } else {
            1int
        }),
    ensures
        grows_expression(
            s,
            emit_array_elements(ctx, elements, from, spread, s),
            array_elements_size(elements, from, spread),
            if spread {
                -1int
            } else {
                0int
            },
        ),
    decreases elements, elements.len() - from,
{
    if from < elements.len() {
        match elements[from] {
            ArrayExpressionElement::Expression(e) => {
                lemma_expression_extends(ctx, e, s);
                match emit_expression(ctx, e, s) {
                    Ok(s1) => {
                        lemma_array_elements_extend(
                            ctx,
                            elements,
                            from + 1,
                            spread,
                            if spread {
                                s1.op(Opcode::InitElemInc)
                            } else {
                                s1.immediate(Opcode::InitElemArray, from as usize)
                            },
                        );
                    },
                    Err(_) => {},
                }
            },
            ArrayExpressionElement::Elision => {
                lemma_array_elements_extend(
                    ctx,
                    elements,
                    from + 1,
                    spread,
                    if spread {
                        s.op(Opcode::Hole).op(Opcode::InitElemInc)
                    } else {
                        s
                    },
                );
            },
            ArrayExpressionElement::SpreadElement(e) => {
                let s0 = if spread {
                    s
                } else {
                    s.immediate(Opcode::Int32, from as usize)
                };
                lemma_expression_extends(ctx, e, s0);
                match emit_expression(ctx, e, s0) {
                    Ok(s1) => {
                        lemma_array_elements_extend(
                            ctx,
                            elements,
                            from + 1,
                            true,
                            s1.op(Opcode::Spread),
                        );
                    },
                    Err(_) => {},
                }
            },
        }
    }
}

/// An accepted array literal leaves the array.
pub proof fn lemma_array_extends(ctx: EmitContext, array: ArrayExpression, s: EmitState)
    ensures
        grows_expression(
            s,
            emit_array_expression(ctx, array, s),
            1 + array_elements_size(array.elements@, 0, false),
            1,
        ),
    decreases array, 0nat,
{
    lemma_array_elements_extend(
        ctx,
        array.elements@,
        0,
        false,
        s.immediate(Opcode::NewArray, array.elements@.len() as usize),
    );
}

/// Accepted declarators leave the operand stack as high as it was.
pub proof fn lemma_declarators_extend(
    ctx: EmitContext,
    declarators: Seq<VariableDeclarator>,
    from: int,
    s: EmitState,
)
    requires
        0 <= from <= declarators.len(),
    ensures
        grows_expression(
            s,
            emit_declarators(ctx, declarators, from, s),
            declarators_size(declarators, from),
            0,
        ),
    decreases declarators.len() - from,
{
    if from < declarators.len() {
        match declarators[from].init {
            Some(init) => {
                match declarators[from].binding {
                    Binding::BindingIdentifier(name) => {
                        lemma_expression_extends(ctx, init, s);
                    },
                    Binding::BindingPattern => {},
                }
                match emit_declaration_assignment(ctx, declarators[from].binding, init, s) {
                    Ok(s1) => {
                        lemma_declarators_extend(ctx, declarators, from + 1, s1);
                    },
                    Err(_) => {},
                }
            },
            None => {
                lemma_declarators_extend(ctx, declarators, from + 1, s);
            },
        }
    }
}

/// An accepted statement appends as many instructions as its size says
/// and leaves the operand stack as high as it was.
pub proof fn lemma_statement_extends(ctx: EmitContext, statement: Statement, s: EmitState)
    ensures
        grows(s, emit_statement(ctx, statement, s), statement_size(statement), 0),
    decreases statement, 0nat,
{
    match statement {
        Statement::BlockStatement { block } => {
            match spec_enter(s.scopes, ctx.scope_data) {
                Ok(scopes) => {
                    let s1 = EmitState { scopes, ..s };
                    lemma_statements_extend(ctx, block.statements@, 0, s1);
                    assert(s.scopes.frames.push(s.scopes.next_scope as usize).drop_last()
                        =~= s.scopes.frames);
                },
                Err(_) => {},
            }
        },
        Statement::DoWhileStatement(do_while) => {
            lemma_do_while_extends(ctx, do_while, s);
        },
        Statement::ExpressionStatement(e) => {
            lemma_expression_extends(ctx, e, s);
        },
        Statement::ForStatement(for_statement) => {
            lemma_for_extends(ctx, for_statement, s);
        },
        Statement::IfStatement(if_statement) => {
            lemma_if_layout(ctx, if_statement, s);
        },
        Statement::ThrowStatement { expression } => {
            lemma_expression_extends(ctx, expression, s);
        },
        Statement::VariableDeclarationStatement(declaration) => {
            lemma_declarators_extend(ctx, declaration.declarators@, 0, s);
        },
        Statement::WhileStatement(while_statement) => {
            lemma_while_extends(ctx, while_statement, s);
        },
        _ => {},
    }
}

/// Accepted statements leave the operand stack as high as it was.
pub proof fn lemma_statements_extend(
    ctx: EmitContext,
    statements: Seq<Statement>,
    from: int,
    s: EmitState,
)
    requires
        0 <= from <= statements.len(),
    ensures
        grows(s, emit_statements(ctx, statements, from, s), statements_size(statements, from), 0),
    decreases statements, statements.len() - from,
{
    if from < statements.len() {
        lemma_statement_extends(ctx, statements[from], s);
        match emit_statement(ctx, statements[from], s) {
            Ok(s1) => {
                lemma_statements_extend(ctx, statements, from + 1, s1);
            },
            Err(_) => {},
        }
    }
}

/// The shape of an `if` statement. The jump behind the test lands on the
/// alternate's first instruction or, without an alternate, behind the
/// consequent. With an alternate the consequent ends in an unconditional
/// jump behind the alternate: nothing falls through from the consequent
/// into the alternate, and each of the two is left with the operand stack
/// as high as at its start.
pub proof fn lemma_if_layout(ctx: EmitContext, if_statement: IfStatement, s: EmitState)
    ensures
        grows(s, emit_if(ctx, if_statement, s), if_size(if_statement), 0),
        emit_if(ctx, if_statement, s) matches Ok(end) ==> {
            &&& emit_expression(ctx, if_statement.test, s) matches Ok(tested)
            &&& end.writer.code[end.offset() - 1].opcode == Opcode::JumpTarget
            &&& match if_statement.alternate {
                Some(alternate) => {
                    let otherwise = tested.offset() + 2 + statement_size(*if_statement.consequent)
                        + 1;
                    &&& end.writer.code[tested.offset()] == (Instruction {
                        opcode: Opcode::IfEq,
                        operand: Operand::Target(otherwise as usize),
                    })
                    &&& end.writer.code[otherwise - 1] == (Instruction {
                        opcode: Opcode::Goto,
                        operand: Operand::Target((end.offset() - 1) as usize),
                    })
                    &&& end.writer.code[otherwise].opcode == Opcode::JumpTarget
                    &&& end.offset() - 1 == otherwise + 1 + statement_size(*alternate)
                },
                None => end.writer.code[tested.offset()] == (Instruction {
                    opcode: Opcode::IfEq,
                    operand: Operand::Target((end.offset() - 1) as usize),
                }),
            }
        },
    decreases if_statement, 0nat,
{
    lemma_expression_extends(ctx, if_statement.test, s);
    match emit_expression(ctx, if_statement.test, s) {
        Ok(s1) => match if_statement.alternate {
            Some(alternate) => {
                let otherwise = s1.offset() + 2 + statement_size(*if_statement.consequent) + 1;
                let merge = otherwise + 1 + statement_size(*alternate);
                let s2 = s1.jump(JumpKind::IfEq, otherwise).op(Opcode::JumpTarget);
                lemma_statement_extends(ctx, *if_statement.consequent, s2);
                match emit_statement(ctx, *if_statement.consequent, s2) {
                    Ok(s3) => {
                        let s4 = s3.jump(JumpKind::Goto, merge).with_depth(s2.writer.depth).op(
                            Opcode::JumpTarget,
                        );
                        lemma_statement_extends(ctx, *alternate, s4);
                        match emit_statement(ctx, *alternate, s4) {
                            Ok(s5) => {
                                assert(s3.writer.code[s1.offset()] == s2.writer.code[s1.offset()]);
                                assert(s5.writer.code[s1.offset()] == s4.writer.code[s1.offset()]);
                                assert(s5.writer.code[otherwise - 1] == s4.writer.code[otherwise
                                    - 1]);
                                assert(s5.writer.code[otherwise] == s4.writer.code[otherwise]);
                            },
                            Err(_) => {},
                        }
                    },
                    Err(_) => {},
                }
            },
            None => {
                let merge = s1.offset() + 2 + statement_size(*if_statement.consequent);
                let s2 = s1.jump(JumpKind::IfEq, merge).op(Opcode::JumpTarget);
                lemma_statement_extends(ctx, *if_statement.consequent, s2);
                match emit_statement(ctx, *if_statement.consequent, s2) {
                    Ok(s3) => {
                        assert(s3.writer.code[s1.offset()] == s2.writer.code[s1.offset()]);
                    },
                    Err(_) => {},
                }
            },
        },
        Err(_) => {},
    }
}

/// An accepted `while` loop is closed when its emission ends: its jumps
/// land inside it.
pub proof fn lemma_while_extends(
    ctx: EmitContext,
    while_statement: WhileStatement,
    s: EmitState,
)
    ensures
        grows(
            s,
            emit_while(ctx, while_statement, s),
            expression_size(while_statement.test) + statement_size(*while_statement.block) + 4,
            0,
        ),
    decreases while_statement, 0nat,
{
    let head = s.offset();
    let exit = head + 1 + expression_size(while_statement.test) + 1 + statement_size(
        *while_statement.block,
    ) + 1;
    let targets = LoopTargets {
        break_target: exit,
        continue_target: head,
    };
    let s1 = s.open_loop(targets);
    assert(s.loops.push(targets).drop_last() =~= s.loops);
    lemma_expression_extends(ctx, while_statement.test, s1);
    match emit_expression(ctx, while_statement.test, s1) {
        Ok(s2) => {
            lemma_statement_extends(ctx, *while_statement.block, s2.jump(JumpKind::IfEq, exit));
        },
        Err(_) => {},
    }
}

/// An accepted `do`-`while` loop is closed when its emission ends: its
/// jumps land inside it.
pub proof fn lemma_do_while_extends(ctx: EmitContext, do_while: DoWhileStatement, s: EmitState)
    ensures
        grows(
            s,
            emit_do_while(ctx, do_while, s),
            statement_size(*do_while.block) + expression_size(do_while.test) + 4,
            0,
        ),
    decreases do_while, 0nat,
{
    let head = s.offset();
    let again = head + 1 + statement_size(*do_while.block);
    let exit = again + 1 + expression_size(do_while.test) + 1;
    let targets = LoopTargets {
        break_target: exit,
        continue_target: again,
    };
    let s1 = s.open_loop(targets);
    assert(s.loops.push(targets).drop_last() =~= s.loops);
    lemma_statement_extends(ctx, *do_while.block, s1);
    match emit_statement(ctx, *do_while.block, s1) {
        Ok(s2) => {
            lemma_expression_extends(ctx, do_while.test, s2.op(Opcode::JumpTarget));
        },
        Err(_) => {},
    }
}

/// An accepted `for` loop is closed when its emission ends: its jumps
/// land inside it.
pub proof fn lemma_for_extends(ctx: EmitContext, for_statement: ForStatement, s: EmitState)
    ensures
        grows(
            s,
            emit_for(ctx, for_statement, s),
            for_init_size(for_statement.init) + optional_size(for_statement.test)
                + statement_size(*for_statement.block) + optional_size(for_statement.update) + 4,
            0,
        ),
    decreases for_statement, 0nat,
{
    match for_statement.init {
        None => {},
        Some(VariableDeclarationOrExpression::VariableDeclaration(declaration)) => {
            lemma_declarators_extend(ctx, declaration.declarators@, 0, s);
        },
        Some(VariableDeclarationOrExpression::Expression(e)) => {
            lemma_expression_extends(ctx, e, s);
        },
    }
    match emit_for_init(ctx, for_statement.init, s) {
        Ok(s0) => {
            let head = s0.offset();
            let again = head + 1 + optional_size(for_statement.test) + statement_size(
                *for_statement.block,
            );
            let exit = again + 1 + optional_size(for_statement.update) + 1;
            let targets = LoopTargets {
                break_target: exit,
                continue_target: again,
            };
            let s1 = s0.open_loop(targets);
            assert(s0.loops.push(targets).drop_last() =~= s0.loops);
            let tested = match for_statement.test {
                None => Ok(s1),
                Some(test) => {
                    match emit_expression(ctx, test, s1) {
                        Err(err) => Err(err),
                        Ok(s2) => Ok(s2.jump(JumpKind::IfEq, exit)),
                    }
                },
            };
            match for_statement.test {
                Some(test) => {
                    lemma_expression_extends(ctx, test, s1);
                },
                None => {},
            }
            match tested {
                Ok(s2) => {
                    lemma_statement_extends(ctx, *for_statement.block, s2);
                    match emit_statement(ctx, *for_statement.block, s2) {
                        Ok(s3) => {
                            match for_statement.update {
                                Some(update) => {
                                    lemma_expression_extends(
                                        ctx,
                                        update,
                                        s3.op(Opcode::JumpTarget),
                                    );
                                },
                                None => {},
                            }
                        },
                        Err(_) => {},
                    }
                },
                Err(_) => {},
            }
        },
        Err(_) => {},
    }
}

/// An accepted script appends the instructions of its statements and
/// leaves the operand stack, the scopes and the loops as they were.
pub proof fn lemma_script_extends(ctx: EmitContext, script: Script, s: EmitState)
    ensures
        grows(s, emit_script(ctx, script, s), statements_size(script.statements@, 0), 0),
{
    match spec_enter(s.scopes, ctx.scope_data) {
        Ok(scopes) => {
            let s1 = EmitState { scopes, ..s };
            lemma_statements_extend(ctx, script.statements@, 0, s1);
            assert(s.scopes.frames.push(s.scopes.next_scope as usize).drop_last()
                =~= s.scopes.frames);
        },
        Err(_) => {},
    }
}

/// Name shadowing. While a block that binds `name` is the innermost open
/// scope, `name` resolves to the block's own binding, whatever the scopes
/// around it bind; a name the block does not bind resolves as it does
/// outside the block; and once the block is closed `name` resolves again
/// as it did before the block was entered.
pub proof fn lemma_shadowing(
    frames: Seq<usize>,
    map: Seq<Seq<BindingName>>,
    inner: usize,
    name: SourceAtomSetIndex,
    other: SourceAtomSetIndex,
)
    requires
        frames.len() > 0,
        binding_index(map[inner as int], name, 0) is Some,
        binding_index(map[inner as int], other, 0) is None,
    ensures
        resolve(frames.push(inner), map, name) == (NameLocation::FrameSlot {
            depth: frames.len() as usize,
            index: binding_index(map[inner as int], name, 0).unwrap() as usize,
        }),
        resolve(frames.push(inner), map, other) == resolve(frames, map, other),
        resolve(frames.push(inner).drop_last(), map, name) == resolve(frames, map, name),
{
    assert(frames.push(inner).drop_last() =~= frames);
    lemma_resolve_from_prefix(frames, frames.push(inner), map, other, frames.len() - 1);
}

/// Entering a scope whose record is free of repeated lexical names puts
/// the record's index on top of the open scopes, and leaving it again
/// restores the scopes that were open.
pub proof fn lemma_enter_exit(view: ScopeStackView, map: Seq<Seq<BindingName>>)
    requires
        view.next_scope < map.len(),
        view.next_scope <= usize::MAX,
        !has_lexical_duplicate(map[view.next_scope as int]),
    ensures
        spec_enter(view, map) matches Ok(entered) && entered.frames.last() == view.next_scope
            && entered.exited().frames == view.frames,
{
    lemma_first_lexical_duplicate(map[view.next_scope as int], 0);
    assert(view.frames.push(view.next_scope as usize).drop_last() =~= view.frames);
}

/// A block whose record binds a lexical name twice is rejected: no state
/// comes out of its emission.
pub proof fn lemma_duplicate_lexical_rejected(ctx: EmitContext, block: Block, s: EmitState)
    requires
        s.scopes.next_scope < ctx.scope_data.len(),
        has_lexical_duplicate(ctx.scope_data[s.scopes.next_scope as int]),
    ensures
        emit_statement(ctx, Statement::BlockStatement { block }, s) matches Err(
            EmitError::DuplicateLexicalBinding(_),
        ),
{
    lemma_first_lexical_duplicate(ctx.scope_data[s.scopes.next_scope as int], 0);
}

/// A script that declares one `let` or `const` name twice at its top
/// level is rejected when it is compiled with its own scope data.
pub proof fn lemma_script_duplicate_rejected(script: Script, eval: SourceAtomSetIndex)
    requires
        has_lexical_duplicate(declared_list(script.statements@, 0, true, true)),
    ensures
        emit_program(
            EmitContext { scope_data: scope_data(Program::Script(script)), eval },
            Program::Script(script),
        ) matches Err(EmitError::DuplicateLexicalBinding(_)),
{
    let map = scope_data(Program::Script(script));
    assert(map[0] == declared_list(script.statements@, 0, true, true));
    lemma_first_lexical_duplicate(map[0], 0);
}

/// The name under which a statement is rejected because the emitter has
/// no bytecode for its kind.
pub open spec fn unsupported_statement(statement: Statement) -> Option<&'static str> {
    match statement {
        Statement::ClassDeclaration => Some("TODO: ClassDeclaration"),
        Statement::DebuggerStatement => Some("TODO: DebuggerStatement"),
        Statement::ForInStatement => Some("TODO: ForInStatement"),
        Statement::ForOfStatement => Some("TODO: ForOfStatement"),
        Statement::LabeledStatement => Some("TODO: LabeledStatement"),
        Statement::ReturnStatement => Some("TODO: ReturnStatement"),
        Statement::SwitchStatement => Some("TODO: SwitchStatement"),
        Statement::SwitchStatementWithDefault => Some("TODO: SwitchStatementWithDefault"),
        Statement::TryCatchStatement => Some("TODO: TryCatchStatement"),
        Statement::TryFinallyStatement => Some("TODO: TryFinallyStatement"),
        Statement::WithStatement => Some("TODO: WithStatement"),
        Statement::FunctionDeclaration { .. } => Some("TODO: FunctionDeclaration"),
        Statement::BreakStatement { label: Some(_) } => Some("TODO: Labeled BreakStatement"),
        Statement::ContinueStatement { label: Some(_) } => Some("TODO: Labeled ContinueStatement"),
        _ => None,
    }
}

/// The name under which an expression is rejected because the emitter has
/// no bytecode for its kind.
pub open spec fn unsupported_expression(e: Expression) -> Option<&'static str> {
    match e {
        Expression::ClassExpression => Some("TODO: ClassExpression"),
        Expression::ArrowExpression => Some("TODO: ArrowExpression"),
        Expression::CompoundAssignmentExpression => Some("TODO: CompoundAssignmentExpression"),
        Expression::FunctionExpression => Some("TODO: FunctionExpression"),
        Expression::NewTargetExpression => Some("TODO: NewTargetExpression"),
        Expression::OptionalChain => Some("TODO: OptionalChain"),
        Expression::OptionalExpression => Some("TODO: OptionalExpression"),
        Expression::TemplateExpression => Some("TODO: TemplateExpression"),
        Expression::ThisExpression => Some("TODO: this"),
        Expression::UpdateExpression => Some("TODO: UpdateExpression"),
        Expression::YieldExpression => Some("TODO: YieldExpression"),
        Expression::YieldGeneratorExpression => Some("TODO: YieldGeneratorExpression"),
        Expression::AwaitExpression => Some("TODO: AwaitExpression"),
        Expression::ImportCallExpression => Some("TODO: ImportCallExpression"),
        Expression::UnaryExpression(unary) => match unary.operator {
            UnaryOperator::Typeof => Some("TODO: Typeof"),
            UnaryOperator::Delete => Some("TODO: Delete"),
            _ => None,
        },
        _ => None,
    }
}

/// Every statement of a kind the emitter has no bytecode for is rejected
/// under the name of its kind, in whatever state emission reaches it.
pub proof fn lemma_unsupported_statement(ctx: EmitContext, statement: Statement, s: EmitState)
    ensures
        unsupported_statement(statement) matches Some(name) ==> emit_statement(ctx, statement, s)
            == unsupported(name),
{
}

/// Every expression of a kind the emitter has no bytecode for is rejected
/// under the name of its kind, in whatever state emission reaches it.
pub proof fn lemma_unsupported_expression(ctx: EmitContext, e: Expression, s: EmitState)
    ensures
        unsupported_expression(e) matches Some(name) ==> emit_expression(ctx, e, s) == unsupported(
            name,
        ),
{
}

/// A statement that is rejected makes the list it stands in rejected with
/// the same error, provided the statements before it are accepted.
pub proof fn lemma_rejection_propagates(
    ctx: EmitContext,
    statements: Seq<Statement>,
    from: int,
    s: EmitState,
)
    requires
        0 <= from < statements.len(),
    ensures
        match emit_statement(ctx, statements[from], s) {
            Err(err) => emit_statements(ctx, statements, from, s) == Err::<EmitState, EmitError>(
                err,
            ),
            Ok(next) => emit_statements(ctx, statements, from, s) == emit_statements(
                ctx,
                statements,
                from + 1,
                next,
            ),
        },
{
}

/// What holds of the emission of a statement when the scope data has a
/// record for every scope the statement holds: on success the emitter has
/// used up exactly the indices of those scopes and none of their records
/// binds a lexical name twice, and a failure is never for want of a record.
pub open spec fn uses_scopes(
    ctx: EmitContext,
    before: EmitState,
    result: Result<EmitState, EmitError>,
    count: nat,
) -> bool {
    match result {
        Ok(after) => {
            &&& after.scopes.next_scope == before.scopes.next_scope + count
            &&& forall|k: int|
                before.scopes.next_scope <= k < after.scopes.next_scope
                    ==> !has_lexical_duplicate(#[trigger] ctx.scope_data[k])
        },
        Err(err) => err != EmitError::UndeclaredScope,
    }
}

/// Emission numbers the scopes of a statement as scope analysis does: one
/// index for each block, in the order the blocks are entered.
pub proof fn lemma_statement_scopes(ctx: EmitContext, statement: Statement, s: EmitState)
    requires
        s.scopes.next_scope + nested_records(statement).len() <= ctx.scope_data.len(),
    ensures
        uses_scopes(ctx, s, emit_statement(ctx, statement, s), nested_records(statement).len()),
    decreases statement, 0nat,
{
    match statement {
        Statement::BlockStatement { block } => {
            match spec_enter(s.scopes, ctx.scope_data) {
                Ok(scopes) => {
                    lemma_first_lexical_duplicate(
                        ctx.scope_data[s.scopes.next_scope as int],
                        0,
                    );
                    lemma_statements_scopes(ctx, block.statements@, 0, EmitState { scopes, ..s });
                },
                Err(_) => {},
            }
        },
        Statement::DoWhileStatement(do_while) => {
            let head = s.offset();
            let again = head + 1 + statement_size(*do_while.block);
            let exit = again + 1 + expression_size(do_while.test) + 1;
            let s1 = s.open_loop(
                LoopTargets {
                    break_target: exit,
                    continue_target: again,
                },
            );
            lemma_statement_scopes(ctx, *do_while.block, s1);
            match emit_statement(ctx, *do_while.block, s1) {
                Ok(s2) => {
                    lemma_expression_extends(ctx, do_while.test, s2.op(Opcode::JumpTarget));
                },
                Err(_) => {},
            }
        },
        Statement::ExpressionStatement(e) => {
            lemma_expression_extends(ctx, e, s);
        },
        Statement::ForStatement(for_statement) => {
            lemma_for_scopes(ctx, for_statement, s);
        },
        Statement::IfStatement(if_statement) => {
            lemma_if_scopes(ctx, if_statement, s);
        },
        Statement::ThrowStatement { expression } => {
            lemma_expression_extends(ctx, expression, s);
        },
        Statement::VariableDeclarationStatement(declaration) => {
            lemma_declarators_extend(ctx, declaration.declarators@, 0, s);
        },
        Statement::WhileStatement(while_statement) => {
            let head = s.offset();
            let exit = head + 1 + expression_size(while_statement.test) + 1 + statement_size(
                *while_statement.block,
            ) + 1;
            let s1 = s.open_loop(
                LoopTargets {
                    break_target: exit,
                    continue_target: head,
                },
            );
            lemma_expression_extends(ctx, while_statement.test, s1);
            match emit_expression(ctx, while_statement.test, s1) {
                Ok(s2) => {
                    lemma_statement_scopes(
                        ctx,
                        *while_statement.block,
                        s2.jump(JumpKind::IfEq, exit),
                    );
                },
                Err(_) => {},
            }
        },
        _ => {},
    }
}

/// Emission numbers the scopes of a list of statements as scope analysis does.
pub proof fn lemma_statements_scopes(
    ctx: EmitContext,
    statements: Seq<Statement>,
    from: int,
    s: EmitState,
)
    requires
        0 <= from <= statements.len(),
        s.scopes.next_scope + nested_records_list(statements, from).len()
            <= ctx.scope_data.len(),
    ensures
        uses_scopes(
            ctx,
            s,
            emit_statements(ctx, statements, from, s),
            nested_records_list(statements, from).len(),
        ),
    decreases statements, statements.len() - from,
{
    if from < statements.len() {
        lemma_statement_scopes(ctx, statements[from], s);
        match emit_statement(ctx, statements[from], s) {
            Ok(s1) => {
                lemma_statements_scopes(ctx, statements, from + 1, s1);
            },
            Err(_) => {},
        }
    }
}

/// Emission numbers the scopes of an `if` statement as scope analysis does.
pub proof fn lemma_if_scopes(ctx: EmitContext, if_statement: IfStatement, s: EmitState)
    requires
        s.scopes.next_scope + nested_records(Statement::IfStatement(if_statement)).len()
            <= ctx.scope_data.len(),
    ensures
        uses_scopes(
            ctx,
            s,
            emit_if(ctx, if_statement, s),
            nested_records(Statement::IfStatement(if_statement)).len(),
        ),
    decreases if_statement, 0nat,
{
    lemma_expression_extends(ctx, if_statement.test, s);
    match emit_expression(ctx, if_statement.test, s) {
        Ok(s1) => match if_statement.alternate {
            Some(alternate) => {
                let otherwise = s1.offset() + 2 + statement_size(*if_statement.consequent) + 1;
                let merge = otherwise + 1 + statement_size(*alternate);
                let s2 = s1.jump(JumpKind::IfEq, otherwise).op(Opcode::JumpTarget);
                lemma_statement_scopes(ctx, *if_statement.consequent, s2);
                match emit_statement(ctx, *if_statement.consequent, s2) {
                    Ok(s3) => {
                        let s4 = s3.jump(JumpKind::Goto, merge).with_depth(s2.writer.depth).op(
                            Opcode::JumpTarget,
                        );
                        lemma_statement_scopes(ctx, *alternate, s4);
                    },
                    Err(_) => {},
                }
            },
            None => {
                let merge = s1.offset() + 2 + statement_size(*if_statement.consequent);
                let s2 = s1.jump(JumpKind::IfEq, merge).op(Opcode::JumpTarget);
                lemma_statement_scopes(ctx, *if_statement.consequent, s2);
            },
        },
        Err(_) => {},
    }
}

/// Emission numbers the scopes of a `for` loop as scope analysis does.
pub proof fn lemma_for_scopes(ctx: EmitContext, for_statement: ForStatement, s: EmitState)
    requires
        s.scopes.next_scope + nested_records(*for_statement.block).len() <= ctx.scope_data.len(),
    ensures
        uses_scopes(
            ctx,
            s,
            emit_for(ctx, for_statement, s),
            nested_records(*for_statement.block).len(),
        ),
    decreases for_statement, 0nat,
{
    match for_statement.init {
        None => {},
        Some(VariableDeclarationOrExpression::VariableDeclaration(declaration)) => {
            lemma_declarators_extend(ctx, declaration.declarators@, 0, s);
        },
        Some(VariableDeclarationOrExpression::Expression(e)) => {
            lemma_expression_extends(ctx, e, s);
        },
    }
    match emit_for_init(ctx, for_statement.init, s) {
        Ok(s0) => {
            let head = s0.offset();
            let again = head + 1 + optional_size(for_statement.test) + statement_size(
                *for_statement.block,
            );
            let exit = again + 1 + optional_size(for_statement.update) + 1;
            let s1 = s0.open_loop(
                LoopTargets {
                    break_target: exit,
                    continue_target: again,
                },
            );
            let tested = match for_statement.test {
                None => Ok(s1),
                Some(test) => {
                    match emit_expression(ctx, test, s1) {
                        Err(err) => Err(err),
                        Ok(s2) => Ok(s2.jump(JumpKind::IfEq, exit)),
                    }
                },
            };
            match for_statement.test {
                Some(test) => {
                    lemma_expression_extends(ctx, test, s1);
                },
                None => {},
            }
            match tested {
                Ok(s2) => {
                    lemma_statement_scopes(ctx, *for_statement.block, s2);
                    match emit_statement(ctx, *for_statement.block, s2) {
                        Ok(s3) => {
                            match for_statement.update {
                                Some(update) => {
                                    lemma_expression_extends(
                                        ctx,
                                        update,
                                        s3.op(Opcode::JumpTarget),
                                    );
                                },
                                None => {},
                            }
                        },
                        Err(_) => {},
                    }
                },
                Err(_) => {},
            }
        },
        Err(_) => {},
    }
}

/// The two passes fit together. A script compiled with the scope data
/// that scope analysis gives for it is never rejected for want of a
/// record. When it is accepted the emitter has entered as many scopes as
/// the scope data has records, and no scope of the script, at whatever
/// depth, declares one `let` or `const` name twice.
pub proof fn lemma_own_scope_data_suffices(script: Script, eval: SourceAtomSetIndex)
    ensures
        match emit_program(
            EmitContext { scope_data: scope_data(Program::Script(script)), eval },
            Program::Script(script),
        ) {
            Ok(end) => {
                &&& end.scopes.next_scope == scope_data(Program::Script(script)).len()
                &&& forall|k: int|
                    0 <= k < scope_data(Program::Script(script)).len() ==> !has_lexical_duplicate(
                        #[trigger] scope_data(Program::Script(script))[k],
                    )
            },
            Err(err) => err != EmitError::UndeclaredScope,
        },
{
    let map = scope_data(Program::Script(script));
    let ctx = EmitContext { scope_data: map, eval };
    let s = EmitState::initial();
    match spec_enter(s.scopes, map) {
        Ok(scopes) => {
            lemma_first_lexical_duplicate(map[0], 0);
            lemma_statements_scopes(ctx, script.statements@, 0, EmitState { scopes, ..s });
        },
        Err(_) => {},
    }
}

/// Whether every jump of `code` has a target and lands on a marked point
/// of `code`.
pub open spec fn jumps_land(code: Seq<Instruction>) -> bool {
    forall|i: int|
        0 <= i < code.len() && (#[trigger] code[i]).opcode.is_jump() ==> match code[i].operand {
            Operand::Target(target) => is_landing(code, target as int),
            _ => false,
        }
}

/// In the stream of an accepted program every jump lands on a marked
/// point of the stream, the operand stack is empty at the end, and no
/// scope or loop is left open.
pub proof fn lemma_program_closed(ctx: EmitContext, program: Program)
    ensures
        emit_program(ctx, program) matches Ok(end) ==> {
            &&& end.writer.depth == 0
            &&& end.scopes.frames.len() == 0
            &&& end.loops.len() == 0
            &&& end.offset() <= usize::MAX ==> jumps_land(end.writer.code)
        },
{
    match program {
        Program::Script(script) => {
            lemma_script_extends(ctx, script, EmitState::initial());
        },
        Program::Module => {},
    }
}

} // verus!
