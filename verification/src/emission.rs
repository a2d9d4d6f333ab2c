//! What the emitter writes, as a function of the syntax tree.
//!
//! Every construct has a fixed instruction sequence. The functions here
//! give, for a tree and the state emission starts in, the state it ends
//! in: the instruction stream with every jump at its final target, the
//! operand-stack depth, the literal pools, the open scopes and loops. A
//! forward jump is described by the offset it lands on, which the sizes of
//! the subtrees in between determine.

use vstd::prelude::*;
use crate::control_structures::LoopTargets;
use crate::emitter::{EmitError, RegExpItem, WriterView};
use crate::emitter_scope::{resolve, spec_enter, NameLocation, ScopeStackView};
use crate::opcode::{JumpKind, Opcode};
use crate::scope::BindingName;
use crate::tree::{Argument, ArrayExpression, ArrayExpressionElement, AssignmentExpression,
    AssignmentTarget, BinaryExpression, BinaryOperator, Binding, CallExpression,
    ComputedMemberExpression, ConditionalExpression, DataProperty, DoWhileStatement, Expression,
    ExpressionOrSuper, ForStatement, IfStatement, MemberExpression, NamedObjectProperty,
    NewExpression, ObjectExpression, ObjectProperty, Program, PropertyName, Script,
    SimpleAssignmentTarget, SourceAtomSetIndex, Statement, StaticMemberExpression,
    UnaryExpression, UnaryOperator, VariableDeclaration, VariableDeclarationOrExpression,
    VariableDeclarator, WhileStatement};

verus! {

/// The bit pattern of the double `+Infinity`.
pub const INFINITY_BITS: u64 = 0x7FF0_0000_0000_0000;

/// What stays fixed during one compilation.
pub struct EmitContext {
    /// The record of every scope, by scope index.
    pub scope_data: Seq<Seq<BindingName>>,
    /// The atom of the identifier `eval`.
    pub eval: SourceAtomSetIndex,
}

/// What changes as emission proceeds.
pub struct EmitState {
    pub writer: WriterView,
    pub scopes: ScopeStackView,
    /// The jump targets of the open loops, innermost last.
    pub loops: Seq<LoopTargets>,
}

impl EmitState {
    /// The state a compilation starts in.
    pub open spec fn initial() -> EmitState {
        EmitState {
            writer: WriterView::empty(),
            scopes: ScopeStackView { frames: Seq::empty(), next_scope: 0 },
            loops: Seq::empty(),
        }
    }

    /// The offset of the next instruction.
    pub open spec fn offset(self) -> int {
        self.writer.code.len() as int
    }

    /// The state after an opcode without operand has been appended.
    pub open spec fn op(self, opcode: Opcode) -> EmitState {
        EmitState { writer: self.writer.op(opcode), ..self }
    }

    /// The state after an opcode with an inline operand has been appended.
    pub open spec fn immediate(self, opcode: Opcode, value: usize) -> EmitState {
        EmitState { writer: self.writer.immediate(opcode, value), ..self }
    }

    /// The state after an opcode with the pool index of `atom` has been appended.
    pub open spec fn atom(self, opcode: Opcode, atom: SourceAtomSetIndex) -> EmitState {
        EmitState { writer: self.writer.atom(opcode, atom), ..self }
    }

    /// The state after an opcode with the pool index of a double has been appended.
    pub open spec fn number(self, opcode: Opcode, bits: u64) -> EmitState {
        EmitState { writer: self.writer.number(opcode, bits), ..self }
    }

    /// The state after an opcode with the pool index of `item` has been appended.
    pub open spec fn regexp(self, opcode: Opcode, item: RegExpItem) -> EmitState {
        EmitState { writer: self.writer.regexp(opcode, item), ..self }
    }

    /// The state after a jump to `target` has been appended.
    pub open spec fn jump(self, kind: JumpKind, target: int) -> EmitState {
        EmitState { writer: self.writer.jump(kind, target), ..self }
    }

    /// The state with the operand-stack depth set to `depth`.
    pub open spec fn with_depth(self, depth: nat) -> EmitState {
        EmitState { writer: self.writer.with_depth(depth), ..self }
    }

    /// Marks a loop head and opens a loop with the given targets.
    pub open spec fn open_loop(self, targets: LoopTargets) -> EmitState {
        EmitState {
            writer: self.writer.op(Opcode::LoopHead),
            loops: self.loops.push(targets),
            ..self
        }
    }

    /// Marks the landing point after a loop and closes the loop.
    pub open spec fn close_loop(self) -> EmitState {
        EmitState {
            writer: self.writer.op(Opcode::JumpTarget),
            loops: self.loops.drop_last(),
            ..self
        }
    }

    /// The state after the innermost scope has been left.
    pub open spec fn exit_scope(self) -> EmitState {
        EmitState { scopes: self.scopes.exited(), ..self }
    }

    /// Reads the name at `location` and pushes its value.
    pub open spec fn get_name(self, location: NameLocation) -> EmitState {
        EmitState { writer: name_read(self.writer, location), ..self }
    }

    /// Writes the value on top to the name at `location`; the value stays.
    pub open spec fn set_name(self, location: NameLocation) -> EmitState {
        EmitState { writer: name_write(self.writer, location), ..self }
    }

    /// Writes the value on top to the name at `location` for the first
    /// time; the value stays.
    pub open spec fn init_name(self, location: NameLocation) -> EmitState {
        EmitState { writer: name_init(self.writer, location), ..self }
    }

    /// Where `name` lives, seen from the open scopes.
    pub open spec fn locate(self, ctx: EmitContext, name: SourceAtomSetIndex) -> NameLocation {
        resolve(self.scopes.frames, ctx.scope_data, name)
    }
}

/// The buffer after the read of the name at `location`.
pub open spec fn name_read(writer: WriterView, location: NameLocation) -> WriterView {
    match location {
        NameLocation::FrameSlot { depth, index } => writer.slot(Opcode::GetLocal, depth, index),
        NameLocation::Global(atom) => writer.atom(Opcode::GetGName, atom),
        NameLocation::Dynamic(atom) => writer.atom(Opcode::GetName, atom),
    }
}

/// The buffer after the write to the name at `location`.
pub open spec fn name_write(writer: WriterView, location: NameLocation) -> WriterView {
    match location {
        NameLocation::FrameSlot { depth, index } => writer.slot(Opcode::SetLocal, depth, index),
        NameLocation::Global(atom) => writer.atom(Opcode::SetGName, atom),
        NameLocation::Dynamic(atom) => writer.atom(Opcode::SetName, atom),
    }
}

/// The buffer after the first write to the name at `location`.
pub open spec fn name_init(writer: WriterView, location: NameLocation) -> WriterView {
    match location {
        NameLocation::FrameSlot { depth, index } => writer.slot(Opcode::InitLexical, depth, index),
        NameLocation::Global(atom) => writer.atom(Opcode::InitGLexical, atom),
        NameLocation::Dynamic(atom) => writer.atom(Opcode::SetName, atom),
    }
}

/// The rejection of a construct without bytecode.
pub open spec fn unsupported(construct: &'static str) -> Result<EmitState, EmitError> {
    Err(EmitError::NotImplemented(construct))
}

/// The opcode of a unary operator, where the emitter has one.
pub open spec fn unary_opcode(operator: UnaryOperator) -> Option<Opcode> {
    match operator {
        UnaryOperator::Plus => Some(Opcode::Pos),
        UnaryOperator::Minus => Some(Opcode::Neg),
        UnaryOperator::LogicalNot => Some(Opcode::Not),
        UnaryOperator::BitwiseNot => Some(Opcode::BitNot),
        UnaryOperator::Void => Some(Opcode::Void),
        UnaryOperator::Typeof => None,
        UnaryOperator::Delete => None,
    }
}

/// The opcode of a binary operator that evaluates both operands and combines them.
pub open spec fn binary_opcode(operator: BinaryOperator) -> Option<Opcode> {
    match operator {
        BinaryOperator::Equals => Some(Opcode::Eq),
        BinaryOperator::NotEquals => Some(Opcode::Ne),
        BinaryOperator::StrictEquals => Some(Opcode::StrictEq),
        BinaryOperator::StrictNotEquals => Some(Opcode::StrictNe),
        BinaryOperator::LessThan => Some(Opcode::Lt),
        BinaryOperator::LessThanOrEqual => Some(Opcode::Le),
        BinaryOperator::GreaterThan => Some(Opcode::Gt),
        BinaryOperator::GreaterThanOrEqual => Some(Opcode::Ge),
        BinaryOperator::In => Some(Opcode::In),
        BinaryOperator::Instanceof => Some(Opcode::Instanceof),
        BinaryOperator::LeftShift => Some(Opcode::Lsh),
        BinaryOperator::RightShift => Some(Opcode::Rsh),
        BinaryOperator::RightShiftExt => Some(Opcode::Ursh),
        BinaryOperator::Add => Some(Opcode::Add),
        BinaryOperator::Sub => Some(Opcode::Sub),
        BinaryOperator::Mul => Some(Opcode::Mul),
        BinaryOperator::Div => Some(Opcode::Div),
        BinaryOperator::Mod => Some(Opcode::Mod),
        BinaryOperator::Pow => Some(Opcode::Pow),
        BinaryOperator::BitwiseOr => Some(Opcode::BitOr),
        BinaryOperator::BitwiseXor => Some(Opcode::BitXor),
        BinaryOperator::BitwiseAnd => Some(Opcode::BitAnd),
        BinaryOperator::Comma => None,
        BinaryOperator::Coalesce => None,
        BinaryOperator::LogicalOr => None,
        BinaryOperator::LogicalAnd => None,
    }
}

/// The jump of a short-circuit operator: taken when the left operand
/// decides the result.
pub open spec fn short_circuit_jump(operator: BinaryOperator) -> Option<JumpKind> {
    match operator {
        BinaryOperator::Coalesce => Some(JumpKind::Coalesce),
        BinaryOperator::LogicalOr => Some(JumpKind::LogicalOr),
        BinaryOperator::LogicalAnd => Some(JumpKind::LogicalAnd),
        _ => None,
    }
}

// ---------------------------------------------------------------------
// Sizes: the number of instructions a construct is emitted as.
// ---------------------------------------------------------------------

/// The size of an expression.
pub open spec fn expression_size(e: Expression) -> nat
    decreases e, 0nat,
{
    match e {
        Expression::LiteralBooleanExpression { .. } => 1,
        Expression::LiteralInfinityExpression => 1,
        Expression::LiteralNullExpression => 1,
        Expression::LiteralNumericExpression { .. } => 1,
        Expression::LiteralRegExpExpression(_) => 1,
        Expression::LiteralStringExpression { .. } => 1,
        Expression::ArrayExpression(array) => 1 + array_elements_size(
            array.elements@,
            0,
            false,
        ),
        Expression::AssignmentExpression(assignment) => expression_size(*assignment.expression)
            + 1,
        Expression::BinaryExpression(binary) => binary_size(binary),
        Expression::CallExpression(call) => callee_size(call.callee) + arguments_size(
            call.arguments.args@,
            0,
        ) + 1,
        Expression::ConditionalExpression(conditional) => expression_size(*conditional.test)
            + expression_size(*conditional.consequent) + expression_size(*conditional.alternate)
            + 5,
        Expression::IdentifierExpression { .. } => 1,
        Expression::MemberExpression(member) => member_size(member),
        Expression::NewExpression(new) => expression_size(*new.callee) + arguments_size(
            new.arguments.args@,
            0,
        ) + 1,
        Expression::ObjectExpression(object) => 1 + properties_size(object.properties@, 0),
        Expression::UnaryExpression(unary) => expression_size(*unary.operand) + 1,
        _ => 0,
    }
}

/// The size of `left op right`.
pub open spec fn binary_size(binary: BinaryExpression) -> nat
    decreases binary, 0nat,
{
    let left = expression_size(*binary.left);
    let right = expression_size(*binary.right);
    match binary.operator {
        BinaryOperator::Comma => left + 1 + right,
        BinaryOperator::Coalesce | BinaryOperator::LogicalOr | BinaryOperator::LogicalAnd => left
            + 2 + right + 1,
        _ => left + right + 1,
    }
}

/// The size of a property or element read.
pub open spec fn member_size(member: MemberExpression) -> nat
    decreases member, 0nat,
{
    match member {
        MemberExpression::ComputedMemberExpression(computed) => match computed.object {
            ExpressionOrSuper::Expression(object) => expression_size(*object) + expression_size(
                *computed.expression,
            ) + 1,
            ExpressionOrSuper::Super => 0,
        },
        MemberExpression::StaticMemberExpression(fixed) => match fixed.object {
            ExpressionOrSuper::Expression(object) => expression_size(*object) + 1,
            ExpressionOrSuper::Super => 0,
        },
        MemberExpression::PrivateFieldExpression => 0,
    }
}

/// The size of the callee of a call, its `this` value included.
pub open spec fn callee_size(callee: ExpressionOrSuper) -> nat
    decreases callee, 0nat,
{
    match callee {
        ExpressionOrSuper::Expression(expression) => match *expression {
            Expression::IdentifierExpression { .. } => 2,
            Expression::MemberExpression(MemberExpression::StaticMemberExpression(fixed)) => {
                match fixed.object {
                    ExpressionOrSuper::Expression(object) => expression_size(*object) + 1,
                    ExpressionOrSuper::Super => 0,
                }
            },
            Expression::MemberExpression(MemberExpression::ComputedMemberExpression(computed)) => {
                match computed.object {
                    ExpressionOrSuper::Expression(object) => expression_size(*object)
                        + expression_size(*computed.expression) + 1,
                    ExpressionOrSuper::Super => 0,
                }
            },
            _ => 0,
        },
        ExpressionOrSuper::Super => 0,
    }
}

/// The size of the arguments from `from` on.
pub open spec fn arguments_size(arguments: Seq<Argument>, from: int) -> nat
    decreases arguments, arguments.len() - from,
{
    if 0 <= from < arguments.len() {
        (match arguments[from] {
            Argument::Expression(e) => expression_size(e),
            Argument::SpreadElement(_) => 0,
        }) + arguments_size(arguments, from + 1)
    } else {
        0
    }
}

/// The size of the elements from `from` on, and of what closes the array
/// literal; `spread` says whether a spread element came before `from`.
pub open spec fn array_elements_size(
    elements: Seq<ArrayExpressionElement>,
    from: int,
    spread: bool,
) -> nat
    decreases elements, elements.len() - from,
{
    if 0 <= from < elements.len() {
        match elements[from] {
            ArrayExpressionElement::Expression(e) => expression_size(e) + 1 + array_elements_size(
                elements,
                from + 1,
                spread,
            ),
            ArrayExpressionElement::Elision => (if spread {
                2nat
            } else {
                0nat
            }) + array_elements_size(elements, from + 1, spread),
            ArrayExpressionElement::SpreadElement(e) => (if spread {
                0nat
            } else {
                1nat
            }) + expression_size(e) + 1 + array_elements_size(elements, from + 1, true),
        }
    } else if spread {
        1
    } else {
        0
    }
}

/// The size of one property of an object literal.
pub open spec fn property_size(property: ObjectProperty) -> nat
    decreases property, 0nat,
{
    match property {
        ObjectProperty::NamedObjectProperty(NamedObjectProperty::DataProperty(data)) => {
            match data.property_name {
                PropertyName::StaticPropertyName(_) => expression_size(*data.expression) + 1,
                PropertyName::StaticNumericPropertyName(_) => expression_size(*data.expression)
                    + 2,
                PropertyName::ComputedPropertyName(key) => expression_size(*key)
                    + expression_size(*data.expression) + 1,
            }
        },
        _ => 0,
    }
}

/// The size of the properties from `from` on.
pub open spec fn properties_size(properties: Seq<ObjectProperty>, from: int) -> nat
    decreases properties, properties.len() - from,
{
    if 0 <= from < properties.len() {
        property_size(properties[from]) + properties_size(properties, from + 1)
    } else {
        0
    }
}

/// The size of one declarator: its initializer, the write and the drop.
pub open spec fn declarator_size(declarator: VariableDeclarator) -> nat {
    match declarator.init {
        Some(init) => expression_size(init) + 2,
        None => 0,
    }
}

/// The size of the declarators from `from` on.
pub open spec fn declarators_size(declarators: Seq<VariableDeclarator>, from: int) -> nat
    decreases declarators.len() - from,
{
    if 0 <= from < declarators.len() {
        declarator_size(declarators[from]) + declarators_size(declarators, from + 1)
    } else {
        0
    }
}

/// The size of what stands before the head of a `for` loop.
pub open spec fn for_init_size(init: Option<VariableDeclarationOrExpression>) -> nat {
    match init {
        None => 0,
        Some(VariableDeclarationOrExpression::VariableDeclaration(declaration)) => {
            declarators_size(declaration.declarators@, 0)
        },
        Some(VariableDeclarationOrExpression::Expression(e)) => expression_size(e) + 1,
    }
}

/// The size of an optional expression followed by one instruction.
pub open spec fn optional_size(e: Option<Expression>) -> nat {
    match e {
        None => 0,
        Some(e) => expression_size(e) + 1,
    }
}

/// The size of a statement.
pub open spec fn statement_size(statement: Statement) -> nat
    decreases statement, 0nat,
{
    match statement {
        Statement::BlockStatement { block } => statements_size(block.statements@, 0),
        Statement::BreakStatement { .. } => 1,
        Statement::ContinueStatement { .. } => 1,
        Statement::DoWhileStatement(do_while) => statement_size(*do_while.block)
            + expression_size(do_while.test) + 4,
        Statement::ExpressionStatement(e) => expression_size(e) + 1,
        Statement::ForStatement(for_statement) => for_init_size(for_statement.init)
            + optional_size(for_statement.test) + statement_size(*for_statement.block)
            + optional_size(for_statement.update) + 4,
        Statement::IfStatement(if_statement) => if_size(if_statement),
        Statement::ThrowStatement { expression } => expression_size(expression) + 1,
        Statement::VariableDeclarationStatement(declaration) => declarators_size(
            declaration.declarators@,
            0,
        ),
        Statement::WhileStatement(while_statement) => expression_size(while_statement.test)
            + statement_size(*while_statement.block) + 4,
        _ => 0,
    }
}

/// The size of an `if` statement.
pub open spec fn if_size(if_statement: IfStatement) -> nat
    decreases if_statement, 0nat,
{
    expression_size(if_statement.test) + 2 + statement_size(*if_statement.consequent)
        + match if_statement.alternate {
        Some(alternate) => 2 + statement_size(*alternate) + 1,
        None => 1,
    }
}

/// The size of the statements from `from` on.
pub open spec fn statements_size(statements: Seq<Statement>, from: int) -> nat
    decreases statements, statements.len() - from,
{
    if 0 <= from < statements.len() {
        statement_size(statements[from]) + statements_size(statements, from + 1)
    } else {
        0
    }
}

// ---------------------------------------------------------------------
// Expressions.
// ---------------------------------------------------------------------

/// Emission of an expression: on success one value more is on the operand stack.
pub open spec fn emit_expression(
    ctx: EmitContext,
    e: Expression,
    s: EmitState,
) -> Result<EmitState, EmitError>
    decreases e, 0nat,
{
    match e {
        Expression::ClassExpression => unsupported("TODO: ClassExpression"),
        Expression::LiteralBooleanExpression { value } => Ok(
            s.op(
                if value {
                    Opcode::True
                } else {
                    Opcode::False
                },
            ),
        ),
        Expression::LiteralInfinityExpression => Ok(s.number(Opcode::Double, INFINITY_BITS)),
        Expression::LiteralNullExpression => Ok(s.op(Opcode::Null)),
        Expression::LiteralNumericExpression { value } => Ok(s.number(Opcode::Double, value)),
        Expression::LiteralRegExpExpression(item) => Ok(s.regexp(Opcode::RegExp, item)),
        Expression::LiteralStringExpression { value } => Ok(s.atom(Opcode::String, value)),
        Expression::ArrayExpression(array) => emit_array_expression(ctx, array, s),
        Expression::ArrowExpression => unsupported("TODO: ArrowExpression"),
        Expression::AssignmentExpression(assignment) => emit_assignment_expression(
            ctx,
            assignment,
            s,
        ),
        Expression::BinaryExpression(binary) => emit_binary_expression(ctx, binary, s),
        Expression::CallExpression(call) => emit_call_expression(ctx, call, s),
        Expression::CompoundAssignmentExpression => unsupported(
            "TODO: CompoundAssignmentExpression",
        ),
        Expression::ConditionalExpression(conditional) => emit_conditional_expression(
            ctx,
            conditional,
            s,
        ),
        Expression::FunctionExpression => unsupported("TODO: FunctionExpression"),
        Expression::IdentifierExpression { name } => Ok(s.get_name(s.locate(ctx, name))),
        Expression::MemberExpression(member) => emit_member_expression(ctx, member, s),
        Expression::NewExpression(new) => emit_new_expression(ctx, new, s),
        Expression::NewTargetExpression => unsupported("TODO: NewTargetExpression"),
        Expression::ObjectExpression(object) => emit_object_expression(ctx, object, s),
        Expression::OptionalChain => unsupported("TODO: OptionalChain"),
        Expression::OptionalExpression => unsupported("TODO: OptionalExpression"),
        Expression::UnaryExpression(unary) => match unary.operator {
            UnaryOperator::Typeof => unsupported("TODO: Typeof"),
            UnaryOperator::Delete => unsupported("TODO: Delete"),
            _ => match emit_expression(ctx, *unary.operand, s) {
                Err(err) => Err(err),
                Ok(s1) => Ok(s1.op(unary_opcode(unary.operator).unwrap())),
            },
        },
        Expression::TemplateExpression => unsupported("TODO: TemplateExpression"),
        Expression::ThisExpression => emit_this(s),
        Expression::UpdateExpression => unsupported("TODO: UpdateExpression"),
        Expression::YieldExpression => unsupported("TODO: YieldExpression"),
        Expression::YieldGeneratorExpression => unsupported("TODO: YieldGeneratorExpression"),
        Expression::AwaitExpression => unsupported("TODO: AwaitExpression"),
        Expression::ImportCallExpression => unsupported("TODO: ImportCallExpression"),
    }
}

/// `this` has no bytecode.
pub open spec fn emit_this(s: EmitState) -> Result<EmitState, EmitError> {
    unsupported("TODO: this")
}

/// `left op right`. A short-circuit operator jumps over its right operand
/// with the left value on the stack; the comma drops the left value; any
/// other operator evaluates both operands and combines them.
pub open spec fn emit_binary_expression(
    ctx: EmitContext,
    binary: BinaryExpression,
    s: EmitState,
) -> Result<EmitState, EmitError>
    decreases binary, 1nat,
{
    match binary.operator {
        BinaryOperator::Coalesce | BinaryOperator::LogicalOr | BinaryOperator::LogicalAnd => {
            emit_short_circuit(ctx, binary, s)
        },
        BinaryOperator::Comma => match emit_expression(ctx, *binary.left, s) {
            Err(err) => Err(err),
            Ok(s1) => emit_expression(ctx, *binary.right, s1.op(Opcode::Pop)),
        },
        _ => match emit_expression(ctx, *binary.left, s) {
            Err(err) => Err(err),
            Ok(s1) => match emit_expression(ctx, *binary.right, s1) {
                Err(err) => Err(err),
                Ok(s2) => Ok(s2.op(binary_opcode(binary.operator).unwrap())),
            },
        },
    }
}

/// The left operand, a jump past the right operand that keeps the left
/// value, then the left value dropped and the right operand in its place.
pub open spec fn emit_short_circuit(
    ctx: EmitContext,
    binary: BinaryExpression,
    s: EmitState,
) -> Result<EmitState, EmitError>
    decreases binary, 0nat,
{
    match emit_expression(ctx, *binary.left, s) {
        Err(err) => Err(err),
        Ok(s1) => {
            let merge = s1.offset() + 2 + expression_size(*binary.right);
            let s2 = s1.jump(short_circuit_jump(binary.operator).unwrap(), merge).op(Opcode::Pop);
            match emit_expression(ctx, *binary.right, s2) {
                Err(err) => Err(err),
                Ok(s3) => Ok(s3.op(Opcode::JumpTarget)),
            }
        },
    }
}

/// `test ? consequent : alternate`.
pub open spec fn emit_conditional_expression(
    ctx: EmitContext,
    conditional: ConditionalExpression,
    s: EmitState,
) -> Result<EmitState, EmitError>
    decreases conditional, 0nat,
{
    match emit_expression(ctx, *conditional.test, s) {
        Err(err) => Err(err),
        Ok(s1) => {
            let otherwise = s1.offset() + 2 + expression_size(*conditional.consequent) + 1;
            let merge = otherwise + 1 + expression_size(*conditional.alternate);
            let s2 = s1.jump(JumpKind::IfEq, otherwise).op(Opcode::JumpTarget);
            match emit_expression(ctx, *conditional.consequent, s2) {
                Err(err) => Err(err),
                Ok(s3) => {
                    let s4 = s3.jump(JumpKind::Goto, merge).with_depth(s2.writer.depth).op(
                        Opcode::JumpTarget,
                    );
                    match emit_expression(ctx, *conditional.alternate, s4) {
                        Err(err) => Err(err),
                        Ok(s5) => Ok(s5.op(Opcode::JumpTarget)),
                    }
                },
            }
        },
    }
}

/// `name = value`: the value, then the write, which leaves the value.
pub open spec fn emit_assignment_expression(
    ctx: EmitContext,
    assignment: AssignmentExpression,
    s: EmitState,
) -> Result<EmitState, EmitError>
    decreases assignment, 0nat,
{
    match assignment.binding {
        AssignmentTarget::SimpleAssignmentTarget(
            SimpleAssignmentTarget::AssignmentTargetIdentifier(name),
        ) => match emit_expression(ctx, *assignment.expression, s) {
            Err(err) => Err(err),
            Ok(s1) => Ok(s1.set_name(s1.locate(ctx, name))),
        },
        _ => unsupported("non-identifier assignment target"),
    }
}

/// `object.property` reads a property by its atom; `object[expression]`
/// evaluates the key and reads an element. A read through `super` needs
/// `this`.
pub open spec fn emit_member_expression(
    ctx: EmitContext,
    member: MemberExpression,
    s: EmitState,
) -> Result<EmitState, EmitError>
    decreases member, 0nat,
{
    match member {
        MemberExpression::ComputedMemberExpression(computed) => match computed.object {
            ExpressionOrSuper::Expression(object) => match emit_expression(ctx, *object, s) {
                Err(err) => Err(err),
                Ok(s1) => match emit_expression(ctx, *computed.expression, s1) {
                    Err(err) => Err(err),
                    Ok(s2) => Ok(s2.op(Opcode::GetElem)),
                },
            },
            ExpressionOrSuper::Super => emit_this(s),
        },
        MemberExpression::StaticMemberExpression(fixed) => match fixed.object {
            ExpressionOrSuper::Expression(object) => match emit_expression(ctx, *object, s) {
                Err(err) => Err(err),
                Ok(s1) => Ok(s1.atom(Opcode::GetProp, fixed.property)),
            },
            ExpressionOrSuper::Super => emit_this(s),
        },
        MemberExpression::PrivateFieldExpression => unsupported("PrivateFieldExpression"),
    }
}

/// Whether one of the arguments is a spread element.
pub open spec fn has_spread(arguments: Seq<Argument>) -> bool {
    exists|i: int| 0 <= i < arguments.len() && (#[trigger] arguments[i]) is SpreadElement
}

/// The arguments from `from` on, left to right.
pub open spec fn emit_arguments(
    ctx: EmitContext,
    arguments: Seq<Argument>,
    from: int,
    s: EmitState,
) -> Result<EmitState, EmitError>
    decreases arguments, arguments.len() - from,
{
    if 0 <= from < arguments.len() {
        match arguments[from] {
            Argument::Expression(e) => match emit_expression(ctx, e, s) {
                Err(err) => Err(err),
                Ok(s1) => emit_arguments(ctx, arguments, from + 1, s1),
            },
            Argument::SpreadElement(_) => unsupported("TODO: SpreadElement"),
        }
    } else {
        Ok(s)
    }
}

/// `new callee(arguments)`.
pub open spec fn emit_new_expression(
    ctx: EmitContext,
    new: NewExpression,
    s: EmitState,
) -> Result<EmitState, EmitError>
    decreases new, 0nat,
{
    if has_spread(new.arguments.args@) {
        unsupported("TODO: SpreadNew")
    } else {
        match emit_expression(ctx, *new.callee, s) {
            Err(err) => Err(err),
            Ok(s1) => match emit_arguments(ctx, new.arguments.args@, 0, s1) {
                Err(err) => Err(err),
                Ok(s2) => Ok(s2.immediate(Opcode::New, new.arguments.args@.len() as usize)),
            },
        }
    }
}

/// The callee of a call and the `this` value the call binds: for a bare
/// name the function and `undefined`, for a property or an element the
/// function and the object it was read from.
pub open spec fn emit_callee(
    ctx: EmitContext,
    callee: ExpressionOrSuper,
    s: EmitState,
) -> Result<EmitState, EmitError>
    decreases callee, 0nat,
{
    match callee {
        ExpressionOrSuper::Expression(expression) => match *expression {
            Expression::IdentifierExpression { name } => if name == ctx.eval {
                unsupported("TODO: direct eval")
            } else {
                Ok(s.get_name(s.locate(ctx, name)).op(Opcode::Undefined))
            },
            Expression::MemberExpression(MemberExpression::StaticMemberExpression(fixed)) => {
                match fixed.object {
                    ExpressionOrSuper::Expression(object) => match emit_expression(
                        ctx,
                        *object,
                        s,
                    ) {
                        Err(err) => Err(err),
                        Ok(s1) => Ok(s1.atom(Opcode::CallProp, fixed.property)),
                    },
                    ExpressionOrSuper::Super => unsupported(
                        "TODO: Call (only global functions are supported)",
                    ),
                }
            },
            Expression::MemberExpression(MemberExpression::ComputedMemberExpression(computed)) => {
                match computed.object {
                    ExpressionOrSuper::Expression(object) => match emit_expression(
                        ctx,
                        *object,
                        s,
                    ) {
                        Err(err) => Err(err),
                        Ok(s1) => match emit_expression(ctx, *computed.expression, s1) {
                            Err(err) => Err(err),
                            Ok(s2) => Ok(s2.op(Opcode::CallElem)),
                        },
                    },
                    ExpressionOrSuper::Super => unsupported(
                        "TODO: Call (only global functions are supported)",
                    ),
                }
            },
            _ => unsupported("TODO: Call (only global functions are supported)"),
        },
        ExpressionOrSuper::Super => unsupported("TODO: Super"),
    }
}

/// `callee(arguments)`.
pub open spec fn emit_call_expression(
    ctx: EmitContext,
    call: CallExpression,
    s: EmitState,
) -> Result<EmitState, EmitError>
    decreases call, 0nat,
{
    match emit_callee(ctx, call.callee, s) {
        Err(err) => Err(err),
        Ok(s1) => match emit_arguments(ctx, call.arguments.args@, 0, s1) {
            Err(err) => Err(err),
            Ok(s2) => Ok(s2.immediate(Opcode::Call, call.arguments.args@.len() as usize)),
        },
    }
}

/// One property of an object literal: the value under a fixed name; a
/// numeric key, then the value; or a computed key, then the value.
pub open spec fn emit_object_property(
    ctx: EmitContext,
    property: ObjectProperty,
    s: EmitState,
) -> Result<EmitState, EmitError>
    decreases property, 0nat,
{
    match property {
        ObjectProperty::NamedObjectProperty(NamedObjectProperty::DataProperty(data)) => {
            match data.property_name {
                PropertyName::StaticPropertyName(key) => match emit_expression(
                    ctx,
                    *data.expression,
                    s,
                ) {
                    Err(err) => Err(err),
                    Ok(s1) => Ok(s1.atom(Opcode::InitProp, key)),
                },
                PropertyName::StaticNumericPropertyName(key) => match emit_expression(
                    ctx,
                    *data.expression,
                    s.number(Opcode::Double, key),
                ) {
                    Err(err) => Err(err),
                    Ok(s1) => Ok(s1.op(Opcode::InitElem)),
                },
                PropertyName::ComputedPropertyName(key) => match emit_expression(ctx, *key, s) {
                    Err(err) => Err(err),
                    Ok(s1) => match emit_expression(ctx, *data.expression, s1) {
                        Err(err) => Err(err),
                        Ok(s2) => Ok(s2.op(Opcode::InitElem)),
                    },
                },
            }
        },
        _ => unsupported("TODO: non data property"),
    }
}

/// The properties from `from` on, in source order.
pub open spec fn emit_object_properties(
    ctx: EmitContext,
    properties: Seq<ObjectProperty>,
    from: int,
    s: EmitState,
) -> Result<EmitState, EmitError>
    decreases properties, properties.len() - from,
{
    if 0 <= from < properties.len() {
        match emit_object_property(ctx, properties[from], s) {
            Err(err) => Err(err),
            Ok(s1) => emit_object_properties(ctx, properties, from + 1, s1),
        }
    } else {
        Ok(s)
    }
}

/// `{ properties }`: a new object, then its properties in source order.
pub open spec fn emit_object_expression(
    ctx: EmitContext,
    object: ObjectExpression,
    s: EmitState,
) -> Result<EmitState, EmitError>
    decreases object, 0nat,
{
    emit_object_properties(ctx, object.properties@, 0, s.op(Opcode::NewInit))
}

/// The elements of an array literal from `from` on, and what closes the
/// literal. Until a spread element is met the index of an element is its
/// position, written inline; from then on the index is a value on the
/// stack above the array, counted up at run time and dropped at the end.
pub open spec fn emit_array_elements(
    ctx: EmitContext,
    elements: Seq<ArrayExpressionElement>,
    from: int,
    spread: bool,
    s: EmitState,
) -> Result<EmitState, EmitError>
    decreases elements, elements.len() - from,
{
    if 0 <= from < elements.len() {
        match elements[from] {
            ArrayExpressionElement::Expression(e) => match emit_expression(ctx, e, s) {
                Err(err) => Err(err),
                Ok(s1) => emit_array_elements(
                    ctx,
                    elements,
                    from + 1,
                    spread,
                    if spread {
                        s1.op(Opcode::InitElemInc)
                    } else {
                        s1.immediate(Opcode::InitElemArray, from as usize)
                    },
                ),
            },
            ArrayExpressionElement::Elision => emit_array_elements(
                ctx,
                elements,
                from + 1,
                spread,
                if spread {
                    s.op(Opcode::Hole).op(Opcode::InitElemInc)
                } else {
                    s
                },
            ),
            ArrayExpressionElement::SpreadElement(e) => match emit_expression(
                ctx,
                e,
                if spread {
                    s
                } else {
                    s.immediate(Opcode::Int32, from as usize)
                },
            ) {
                Err(err) => Err(err),
                Ok(s1) => emit_array_elements(ctx, elements, from + 1, true, s1.op(Opcode::Spread)),
            },
        }
    } else if spread {
        Ok(s.op(Opcode::Pop))
    } else {
        Ok(s)
    }
}

/// `[ elements ]`: a new array, then its elements in source order.
pub open spec fn emit_array_expression(
    ctx: EmitContext,
    array: ArrayExpression,
    s: EmitState,
) -> Result<EmitState, EmitError>
    decreases array, 0nat,
{
    emit_array_elements(
        ctx,
        array.elements@,
        0,
        false,
        s.immediate(Opcode::NewArray, array.elements@.len() as usize),
    )
}

// ---------------------------------------------------------------------
// Statements.
// ---------------------------------------------------------------------

/// `binding = init` in a declaration: the value, the first write to the
/// name, and the value dropped.
pub open spec fn emit_declaration_assignment(
    ctx: EmitContext,
    binding: Binding,
    init: Expression,
    s: EmitState,
) -> Result<EmitState, EmitError> {
    match binding {
        Binding::BindingIdentifier(name) => match emit_expression(ctx, init, s) {
            Err(err) => Err(err),
            Ok(s1) => Ok(s1.init_name(s1.locate(ctx, name)).op(Opcode::Pop)),
        },
        Binding::BindingPattern => unsupported("BindingPattern"),
    }
}

/// The initializers of the declarators from `from` on. A declarator
/// without initializer emits nothing.
pub open spec fn emit_declarators(
    ctx: EmitContext,
    declarators: Seq<VariableDeclarator>,
    from: int,
    s: EmitState,
) -> Result<EmitState, EmitError>
    decreases declarators.len() - from,
{
    if 0 <= from < declarators.len() {
        match declarators[from].init {
            Some(init) => match emit_declaration_assignment(
                ctx,
                declarators[from].binding,
                init,
                s,
            ) {
                Err(err) => Err(err),
                Ok(s1) => emit_declarators(ctx, declarators, from + 1, s1),
            },
            None => emit_declarators(ctx, declarators, from + 1, s),
        }
    } else {
        Ok(s)
    }
}

/// A `var`, `let` or `const` statement: its initializers in source order.
pub open spec fn emit_variable_declaration_statement(
    ctx: EmitContext,
    declaration: VariableDeclaration,
    s: EmitState,
) -> Result<EmitState, EmitError> {
    emit_declarators(ctx, declaration.declarators@, 0, s)
}

/// Emission of a statement: on success the operand stack is as high as before.
pub open spec fn emit_statement(
    ctx: EmitContext,
    statement: Statement,
    s: EmitState,
) -> Result<EmitState, EmitError>
    decreases statement, 0nat,
{
    match statement {
        Statement::ClassDeclaration => unsupported("TODO: ClassDeclaration"),
        Statement::BlockStatement { block } => match spec_enter(s.scopes, ctx.scope_data) {
            Err(err) => Err(err),
            Ok(scopes) => match emit_statements(
                ctx,
                block.statements@,
                0,
                EmitState { scopes, ..s },
            ) {
                Err(err) => Err(err),
                Ok(s1) => Ok(s1.exit_scope()),
            },
        },
        Statement::BreakStatement { label } => if label is Some {
            unsupported("TODO: Labeled BreakStatement")
        } else if s.loops.len() == 0 {
            Err(EmitError::NoEnclosingLoop)
        } else {
            Ok(s.jump(JumpKind::Goto, s.loops.last().break_target))
        },
        Statement::ContinueStatement { label } => if label is Some {
            unsupported("TODO: Labeled ContinueStatement")
        } else if s.loops.len() == 0 {
            Err(EmitError::NoEnclosingLoop)
        } else {
            Ok(s.jump(JumpKind::Goto, s.loops.last().continue_target))
        },
        Statement::DebuggerStatement => unsupported("TODO: DebuggerStatement"),
        Statement::DoWhileStatement(do_while) => emit_do_while(ctx, do_while, s),
        Statement::EmptyStatement => Ok(s),
        Statement::ExpressionStatement(e) => match emit_expression(ctx, e, s) {
            Err(err) => Err(err),
            Ok(s1) => Ok(s1.op(Opcode::Pop)),
        },
        Statement::ForInStatement => unsupported("TODO: ForInStatement"),
        Statement::ForOfStatement => unsupported("TODO: ForOfStatement"),
        Statement::ForStatement(for_statement) => emit_for(ctx, for_statement, s),
        Statement::IfStatement(if_statement) => emit_if(ctx, if_statement, s),
        Statement::LabeledStatement => unsupported("TODO: LabeledStatement"),
        Statement::ReturnStatement => unsupported("TODO: ReturnStatement"),
        Statement::SwitchStatement => unsupported("TODO: SwitchStatement"),
        Statement::SwitchStatementWithDefault => unsupported("TODO: SwitchStatementWithDefault"),
        Statement::ThrowStatement { expression } => match emit_expression(ctx, expression, s) {
            Err(err) => Err(err),
            Ok(s1) => Ok(s1.op(Opcode::Throw)),
        },
        Statement::TryCatchStatement => unsupported("TODO: TryCatchStatement"),
        Statement::TryFinallyStatement => unsupported("TODO: TryFinallyStatement"),
        Statement::VariableDeclarationStatement(declaration) => {
            emit_variable_declaration_statement(ctx, declaration, s)
        },
        Statement::WhileStatement(while_statement) => emit_while(ctx, while_statement, s),
        Statement::WithStatement => unsupported("TODO: WithStatement"),
        Statement::FunctionDeclaration { .. } => unsupported("TODO: FunctionDeclaration"),
    }
}

/// The statements from `from` on, in source order.
pub open spec fn emit_statements(
    ctx: EmitContext,
    statements: Seq<Statement>,
    from: int,
    s: EmitState,
) -> Result<EmitState, EmitError>
    decreases statements, statements.len() - from,
{
    if 0 <= from < statements.len() {
        match emit_statement(ctx, statements[from], s) {
            Err(err) => Err(err),
            Ok(s1) => emit_statements(ctx, statements, from + 1, s1),
        }
    } else {
        Ok(s)
    }
}

/// `if (test) consequent else alternate`. The jump on a false test lands
/// on the alternate's first instruction, or behind the consequent when
/// there is no alternate; the consequent ends in a jump behind the
/// alternate.
pub open spec fn emit_if(
    ctx: EmitContext,
    if_statement: IfStatement,
    s: EmitState,
) -> Result<EmitState, EmitError>
    decreases if_statement, 0nat,
{
    match emit_expression(ctx, if_statement.test, s) {
        Err(err) => Err(err),
        Ok(s1) => match if_statement.alternate {
            Some(alternate) => {
                let otherwise = s1.offset() + 2 + statement_size(*if_statement.consequent) + 1;
                let merge = otherwise + 1 + statement_size(*alternate);
                let s2 = s1.jump(JumpKind::IfEq, otherwise).op(Opcode::JumpTarget);
                match emit_statement(ctx, *if_statement.consequent, s2) {
                    Err(err) => Err(err),
                    Ok(s3) => {
                        let s4 = s3.jump(JumpKind::Goto, merge).with_depth(s2.writer.depth).op(
                            Opcode::JumpTarget,
                        );
                        match emit_statement(ctx, *alternate, s4) {
                            Err(err) => Err(err),
                            Ok(s5) => Ok(s5.op(Opcode::JumpTarget)),
                        }
                    },
                }
            },
            None => {
                let merge = s1.offset() + 2 + statement_size(*if_statement.consequent);
                let s2 = s1.jump(JumpKind::IfEq, merge).op(Opcode::JumpTarget);
                match emit_statement(ctx, *if_statement.consequent, s2) {
                    Err(err) => Err(err),
                    Ok(s3) => Ok(s3.op(Opcode::JumpTarget)),
                }
            },
        },
    }
}

/// `while (test) block`: the test at the loop head, a jump behind the loop
/// on a false test, the block, and a jump back to the head. `continue`
/// lands on the head, `break` behind the loop.
pub open spec fn emit_while(
    ctx: EmitContext,
    while_statement: WhileStatement,
    s: EmitState,
) -> Result<EmitState, EmitError>
    decreases while_statement, 0nat,
{
    let head = s.offset();
    let exit = head + 1 + expression_size(while_statement.test) + 1 + statement_size(
        *while_statement.block,
    ) + 1;
    let s1 = s.open_loop(LoopTargets { break_target: exit, continue_target: head });
    match emit_expression(ctx, while_statement.test, s1) {
        Err(err) => Err(err),
        Ok(s2) => match emit_statement(ctx, *while_statement.block, s2.jump(JumpKind::IfEq, exit)) {
            Err(err) => Err(err),
            Ok(s3) => Ok(s3.jump(JumpKind::Goto, head).close_loop()),
        },
    }
}

/// `do block while (test)`: the block at the loop head, the test, and a
/// jump back to the head on a true test. `continue` lands on the test,
/// `break` behind the loop.
pub open spec fn emit_do_while(
    ctx: EmitContext,
    do_while: DoWhileStatement,
    s: EmitState,
) -> Result<EmitState, EmitError>
    decreases do_while, 0nat,
{
    let head = s.offset();
    let again = head + 1 + statement_size(*do_while.block);
    let exit = again + 1 + expression_size(do_while.test) + 1;
    let s1 = s.open_loop(LoopTargets { break_target: exit, continue_target: again });
    match emit_statement(ctx, *do_while.block, s1) {
        Err(err) => Err(err),
        Ok(s2) => match emit_expression(ctx, do_while.test, s2.op(Opcode::JumpTarget)) {
            Err(err) => Err(err),
            Ok(s3) => Ok(s3.jump(JumpKind::IfNe, head).close_loop()),
        },
    }
}

/// What stands before the head of a `for` loop.
pub open spec fn emit_for_init(
    ctx: EmitContext,
    init: Option<VariableDeclarationOrExpression>,
    s: EmitState,
) -> Result<EmitState, EmitError> {
    match init {
        None => Ok(s),
        Some(VariableDeclarationOrExpression::VariableDeclaration(declaration)) => {
            emit_variable_declaration_statement(ctx, declaration, s)
        },
        Some(VariableDeclarationOrExpression::Expression(e)) => match emit_expression(ctx, e, s) {
            Err(err) => Err(err),
            Ok(s1) => Ok(s1.op(Opcode::Pop)),
        },
    }
}

/// `for (init; test; update) block`: the init, then at the loop head the
/// test with a jump behind the loop when it is false, the block, the
/// update with its value dropped, and a jump back to the head. A loop
/// without a test has no way out but `break`. `continue` lands in front of
/// the update, `break` behind the loop.
pub open spec fn emit_for(
    ctx: EmitContext,
    for_statement: ForStatement,
    s: EmitState,
) -> Result<EmitState, EmitError>
    decreases for_statement, 0nat,
{
    match emit_for_init(ctx, for_statement.init, s) {
        Err(err) => Err(err),
        Ok(s0) => {
            let head = s0.offset();
            let again = head + 1 + optional_size(for_statement.test) + statement_size(
                *for_statement.block,
            );
            let exit = again + 1 + optional_size(for_statement.update) + 1;
            let s1 = s0.open_loop(LoopTargets { break_target: exit, continue_target: again });
            let tested = match for_statement.test {
                None => Ok(s1),
                Some(test) => match emit_expression(ctx, test, s1) {
                    Err(err) => Err(err),
                    Ok(s2) => Ok(s2.jump(JumpKind::IfEq, exit)),
                },
            };
            match tested {
                Err(err) => Err(err),
                Ok(s2) => match emit_statement(ctx, *for_statement.block, s2) {
                    Err(err) => Err(err),
                    Ok(s3) => {
                        let updated = match for_statement.update {
                            None => Ok(s3.op(Opcode::JumpTarget)),
                            Some(update) => match emit_expression(
                                ctx,
                                update,
                                s3.op(Opcode::JumpTarget),
                            ) {
                                Err(err) => Err(err),
                                Ok(s4) => Ok(s4.op(Opcode::Pop)),
                            },
                        };
                        match updated {
                            Err(err) => Err(err),
                            Ok(s5) => Ok(s5.jump(JumpKind::Goto, head).close_loop()),
                        }
                    },
                },
            }
        },
    }
}

/// A script: its scope entered, its statements, its scope left.
pub open spec fn emit_script(
    ctx: EmitContext,
    script: Script,
    s: EmitState,
) -> Result<EmitState, EmitError> {
    match spec_enter(s.scopes, ctx.scope_data) {
        Err(err) => Err(err),
        Ok(scopes) => match emit_statements(ctx, script.statements@, 0, EmitState { scopes, ..s }) {
            Err(err) => Err(err),
            Ok(s1) => Ok(s1.exit_scope()),
        },
    }
}

/// A whole program, from the initial state.
pub open spec fn emit_program(ctx: EmitContext, program: Program) -> Result<EmitState, EmitError> {
    match program {
        Program::Script(script) => emit_script(ctx, script, EmitState::initial()),
        Program::Module => unsupported("TODO: modules"),
    }
}

} // verus!
