//! The tree-walking driver: dispatches over statement and expression kinds
//! and writes the instructions of each.

use vstd::prelude::*;
use crate::control_structures::{ForwardJumpEmitter, LoopStack, LoopTargets};
use crate::emission;
use crate::emission::{EmitContext, EmitState, INFINITY_BITS};
use crate::emitter::{keeps_loop_pending, keeps_pending, EmitError, EmitOptions, EmitResult,
    InstructionWriter};
use crate::emitter_scope::{EmitterScopeStack, NameLocation};
use crate::laws::{jumps_land, lemma_program_closed};
use crate::opcode::{JumpKind, Opcode};
use crate::reference_op_emitter::{GetNameEmitter, NameReferenceEmitter};
use crate::scope::ScopeDataMap;
use crate::tree::{Argument, Arguments, ArrayExpression, ArrayExpressionElement,
    AssignmentExpression, AssignmentTarget, BinaryExpression, BinaryOperator, Binding,
    CallExpression, CommonSourceAtomSetIndices, ConditionalExpression, DoWhileStatement,
    Expression, ExpressionOrSuper, ForStatement, IfStatement, MemberExpression,
    NamedObjectProperty, NewExpression, ObjectExpression, ObjectProperty, Program, PropertyName,
    Script, SimpleAssignmentTarget, SourceAtomSetIndex, Statement, UnaryOperator,
    VariableDeclaration, VariableDeclarationOrExpression, WhileStatement};

verus! {

/// Emits a program, converting the syntax tree to bytecode.
///
/// `scope_data_map` holds the record of every scope of the program, as
/// scope analysis produces it. The result is the artifact
/// [`emission::emit_program`] describes: its instruction stream with every
/// jump patched, and its pools. A program that is rejected yields the
/// error and nothing else.
pub fn emit_program(
    ast: &Program,
    options: &EmitOptions,
    atoms: CommonSourceAtomSetIndices,
    scope_data_map: ScopeDataMap,
) -> (result: Result<EmitResult, EmitError>)
    ensures
        match result {
            Ok(artifact) => {
                &&& emission::emit_program(program_context(atoms, scope_data_map), *ast) matches Ok(
                    end,
                )
                &&& artifact.code@ == end.writer.code
                &&& artifact.atoms@ == end.writer.atoms
                &&& artifact.numbers@ == end.writer.numbers
                &&& artifact.regexps@ == end.writer.regexps
                &&& end.writer.depth == 0
                &&& end.scopes.frames.len() == 0
                &&& end.loops.len() == 0
                &&& forall|i: int|
                    0 <= i < artifact.code@.len() ==> !(#[trigger] artifact.code@[i]).is_unpatched()
                &&& jumps_land(artifact.code@)
                &&& scope_data_map@.len() > 0
                &&& artifact.top_scope@ == scope_data_map@[0]
            },
            Err(err) => emission::emit_program(program_context(atoms, scope_data_map), *ast)
                == Err::<EmitState, EmitError>(err),
        },
{
    let mut emitter = AstEmitter::new(options, atoms, scope_data_map);
    match ast {
        Program::Script(script) => emitter.emit_script(script)?,
        _ => {
            return Err(EmitError::NotImplemented("TODO: modules"));
        },
    }
    proof {
        emitter.loop_stack.lemma_empty();
        emitter.emit.lemma_wf();
        lemma_program_closed(program_context(atoms, scope_data_map), *ast);
    }
    let AstEmitter { emit, compilation_info, .. } = emitter;
    let CompilationInfo { scope_data_map: map, .. } = compilation_info;
    let mut records = map.records;
    let top_scope = records.swap_remove(0);
    emit.into_emit_result(top_scope)
}

/// The context a compilation with the given inputs runs in.
pub open spec fn program_context(
    atoms: CommonSourceAtomSetIndices,
    scope_data_map: ScopeDataMap,
) -> EmitContext {
    EmitContext { scope_data: scope_data_map@, eval: atoms.eval }
}

/// What one compilation is given and never changes.
pub struct CompilationInfo {
    pub scope_data_map: ScopeDataMap,
    pub atoms: CommonSourceAtomSetIndices,
}

/// The state of one emission pass: the instruction buffer, the scopes and
/// the loops that are open, and what the compilation was given.
pub struct AstEmitter<'opt> {
    pub emit: InstructionWriter,
    pub options: &'opt EmitOptions,
    pub compilation_info: CompilationInfo,
    pub scope_stack: EmitterScopeStack,
    pub loop_stack: LoopStack,
}

/// How the state after an emission relates to the state before it:
/// on success it is the state `expected` names, `size` instructions
/// further on and with `pushed` more values on the operand stack; on
/// failure `expected` names the error.
pub open spec fn emitted(
    before: EmitState,
    after: EmitState,
    result: Result<(), EmitError>,
    expected: Result<EmitState, EmitError>,
    size: nat,
    pushed: int,
) -> bool {
    match result {
        Ok(()) => expected == Ok::<EmitState, EmitError>(after) && after.offset() == before.offset()
            + size && after.writer.depth == before.writer.depth + pushed,
        Err(err) => expected == Err::<EmitState, EmitError>(err),
    }
}

impl<'opt> View for AstEmitter<'opt> {
    type V = EmitState;

    open spec fn view(&self) -> EmitState {
        EmitState { writer: self.emit@, scopes: self.scope_stack@, loops: self.loop_stack@ }
    }
}

impl<'opt> AstEmitter<'opt> {
    /// What stays fixed during the compilation.
    pub open spec fn context(&self) -> EmitContext {
        EmitContext {
            scope_data: self.compilation_info.scope_data_map@,
            eval: self.compilation_info.atoms.eval,
        }
    }

    /// The buffer is consistent and every open scope has a record.
    pub open spec fn wf(&self) -> bool {
        &&& self.emit.wf()
        &&& self.scope_stack.wf(self.compilation_info.scope_data_map@)
    }

    /// Every jump the loop stack has recorded is pending in the buffer,
    /// and inside a loop the operand stack is as high as at the loop's head.
    pub open spec fn loops_wf(&self) -> bool {
        &&& self.loop_stack.wf(self.emit)
        &&& self.loop_stack@.len() > 0 ==> self.emit@.depth == self.loop_stack.depth()
    }

    /// What emitting an expression leaves alone: the scopes, the loops,
    /// what the compilation was given, and every pending jump.
    pub open spec fn expression_frame(&self, before: &Self, result: Result<(), EmitError>) -> bool {
        &&& self.wf()
        &&& self.compilation_info == before.compilation_info
        &&& self.scope_stack == before.scope_stack
        &&& self.loop_stack == before.loop_stack
        &&& result is Ok ==> {
            &&& self.emit.pending_count() == before.emit.pending_count()
            &&& keeps_pending(before.emit, self.emit)
            &&& keeps_loop_pending(before.emit, self.emit)
            &&& before@.offset() <= self@.offset()
        }
    }

    /// What emitting a statement leaves alone. The open scopes and loops
    /// are the same whether it succeeds or fails. On success every jump
    /// that was pending before still is; the innermost loop may have more
    /// jumps recorded, and these are the only jumps the statement has
    /// left pending.
    pub open spec fn statement_frame(&self, before: &Self, result: Result<(), EmitError>) -> bool {
        &&& self.compilation_info == before.compilation_info
        &&& self.scope_stack@.frames == before.scope_stack@.frames
        &&& self.loop_stack@ == before.loop_stack@
        &&& result is Ok ==> {
            &&& self.wf()
            &&& self.loops_wf()
            &&& self.loop_stack.grown_from(before.loop_stack)
            &&& self.emit.pending_count() - self.loop_stack.recorded()
                == before.emit.pending_count() - before.loop_stack.recorded()
            &&& keeps_pending(before.emit, self.emit)
            &&& before@.offset() <= self@.offset()
        }
    }

    /// Code that only emits expressions and keeps the stack height is a
    /// statement as far as the frame goes.
    pub proof fn lemma_expression_as_statement(&self, before: &Self)
        requires
            before.wf(),
            before.loops_wf(),
            self.expression_frame(before, Ok(())),
            self@.writer.depth == before@.writer.depth,
        ensures
            self.statement_frame(before, Ok(())),
    {
        self.loop_stack.lemma_wf_kept(before.emit, self.emit);
        self.loop_stack.lemma_grown_from_refl();
    }

    /// Two statements in a row are framed like one.
    pub proof fn lemma_statement_frames(&self, middle: &Self, before: &Self)
        requires
            middle.statement_frame(before, Ok(())),
            self.statement_frame(middle, Ok(())),
        ensures
            self.statement_frame(before, Ok(())),
    {
        self.loop_stack.lemma_grown_from_trans(middle.loop_stack, before.loop_stack);
    }

    /// An emitter with an empty buffer and no scope or loop open.
    pub fn new(
        options: &'opt EmitOptions,
        atoms: CommonSourceAtomSetIndices,
        scope_data_map: ScopeDataMap,
    ) -> (emitter: Self)
        ensures
            emitter.wf(),
            emitter.loops_wf(),
            emitter@ == EmitState::initial(),
            emitter.options == options,
            emitter.compilation_info.scope_data_map == scope_data_map,
            emitter.compilation_info.atoms == atoms,
            emitter.emit.pending_count() == 0,
            emitter.loop_stack.recorded() == 0,
    {
        AstEmitter {
            emit: InstructionWriter::new(),
            options,
            compilation_info: CompilationInfo { scope_data_map, atoms },
            scope_stack: EmitterScopeStack::new(),
            loop_stack: LoopStack::new(),
        }
    }

    /// Resolves `name` against the scopes that are open.
    pub fn lookup_name(&mut self, name: SourceAtomSetIndex) -> (location: NameLocation)
        requires
            old(self).wf(),
        ensures
            *final(self) == *old(self),
            location == old(self)@.locate(old(self).context(), name),
    {
        self.scope_stack.lookup_name(&self.compilation_info.scope_data_map, name)
    }

    /// `this` has no bytecode yet: always rejected, and nothing is written.
    pub fn emit_this(&mut self) -> (result: Result<(), EmitError>)
        requires
            old(self).wf(),
        ensures
            *final(self) == *old(self),
            result == Err::<(), EmitError>(EmitError::NotImplemented("TODO: this")),
    {
        Err(EmitError::NotImplemented("TODO: this"))
    }

    /// Reads a name: its location is resolved and its value pushed.
    pub fn emit_identifier_expression(&mut self, name: SourceAtomSetIndex)
        requires
            old(self).wf(),
        ensures
            final(self).expression_frame(old(self), Ok(())),
            final(self)@ == old(self)@.get_name(old(self)@.locate(old(self).context(), name)),
            final(self)@.offset() == old(self)@.offset() + 1,
            final(self)@.writer.depth == old(self)@.writer.depth + 1,
    {
        GetNameEmitter { name }.emit(self);
    }

    /// Emits an expression. On success the buffer holds the instructions
    /// [`emission::emit_expression`] describes and one value more is on the
    /// operand stack.
    pub fn emit_expression(&mut self, ast: &Expression) -> (result: Result<(), EmitError>)
        requires
            old(self).wf(),
        ensures
            final(self).expression_frame(old(self), result),
            emitted(
                old(self)@,
                final(self)@,
                result,
                emission::emit_expression(old(self).context(), *ast, old(self)@),
                emission::expression_size(*ast),
                1,
            ),
        decreases *ast, 0nat,
    {
        match ast {
            Expression::ClassExpression => {
                return Err(EmitError::NotImplemented("TODO: ClassExpression"));
            },
            Expression::LiteralBooleanExpression { value } => {
                if *value {
                    self.emit.emit_op(Opcode::True);
                } else {
                    self.emit.emit_op(Opcode::False);
                }
            },
            Expression::LiteralInfinityExpression => {
                self.emit.emit_with_number(Opcode::Double, INFINITY_BITS);
            },
            Expression::LiteralNullExpression => {
                self.emit.emit_op(Opcode::Null);
            },
            Expression::LiteralNumericExpression { value } => {
                self.emit.emit_with_number(Opcode::Double, *value);
            },
            Expression::LiteralRegExpExpression(item) => {
                self.emit.emit_with_regexp(Opcode::RegExp, *item);
            },
            Expression::LiteralStringExpression { value } => {
                self.emit.emit_with_atom(Opcode::String, *value);
            },
            Expression::ArrayExpression(array) => {
                self.emit_array_expression(array)?;
            },
            Expression::ArrowExpression => {
                return Err(EmitError::NotImplemented("TODO: ArrowExpression"));
            },
            Expression::AssignmentExpression(assignment) => {
                self.emit_assignment_expression(assignment)?;
            },
            Expression::BinaryExpression(binary) => {
                self.emit_binary_expression(binary)?;
            },
            Expression::CallExpression(call) => {
                self.emit_call_expression(call)?;
            },
            Expression::CompoundAssignmentExpression => {
                return Err(EmitError::NotImplemented("TODO: CompoundAssignmentExpression"));
            },
            Expression::ConditionalExpression(conditional) => {
                self.emit_conditional_expression(conditional)?;
            },
            Expression::FunctionExpression => {
                return Err(EmitError::NotImplemented("TODO: FunctionExpression"));
            },
            Expression::IdentifierExpression { name } => {
                self.emit_identifier_expression(*name);
            },
            Expression::MemberExpression(member) => {
                self.emit_member_expression(member)?;
            },
            Expression::NewExpression(new) => {
                self.emit_new_expression(new)?;
            },
            Expression::NewTargetExpression => {
                return Err(EmitError::NotImplemented("TODO: NewTargetExpression"));
            },
            Expression::ObjectExpression(object) => {
                self.emit_object_expression(object)?;
            },
            Expression::OptionalChain => {
                return Err(EmitError::NotImplemented("TODO: OptionalChain"));
            },
            Expression::OptionalExpression => {
                return Err(EmitError::NotImplemented("TODO: OptionalExpression"));
            },
            Expression::UnaryExpression(unary) => {
                let opcode = match unary.operator {
                    UnaryOperator::Plus => Opcode::Pos,
                    UnaryOperator::Minus => Opcode::Neg,
                    UnaryOperator::LogicalNot => Opcode::Not,
                    UnaryOperator::BitwiseNot => Opcode::BitNot,
                    UnaryOperator::Void => Opcode::Void,
                    UnaryOperator::Typeof => {
                        return Err(EmitError::NotImplemented("TODO: Typeof"));
                    },
                    UnaryOperator::Delete => {
                        return Err(EmitError::NotImplemented("TODO: Delete"));
                    },
                };
                self.emit_expression(&unary.operand)?;
                self.emit.emit_op(opcode);
            },
            Expression::TemplateExpression => {
                return Err(EmitError::NotImplemented("TODO: TemplateExpression"));
            },
            Expression::ThisExpression => {
                self.emit_this()?;
            },
            Expression::UpdateExpression => {
                return Err(EmitError::NotImplemented("TODO: UpdateExpression"));
            },
            Expression::YieldExpression => {
                return Err(EmitError::NotImplemented("TODO: YieldExpression"));
            },
            Expression::YieldGeneratorExpression => {
                return Err(EmitError::NotImplemented("TODO: YieldGeneratorExpression"));
            },
            Expression::AwaitExpression => {
                return Err(EmitError::NotImplemented("TODO: AwaitExpression"));
            },
            Expression::ImportCallExpression => {
                return Err(EmitError::NotImplemented("TODO: ImportCallExpression"));
            },
        }
        Ok(())
    }

    /// Emits `left op right`.
    pub fn emit_binary_expression(&mut self, binary: &BinaryExpression) -> (result: Result<
        (),
        EmitError,
    >)
        requires
            old(self).wf(),
        ensures
            final(self).expression_frame(old(self), result),
            emitted(
                old(self)@,
                final(self)@,
                result,
                emission::emit_binary_expression(old(self).context(), *binary, old(self)@),
                emission::binary_size(*binary),
                1,
            ),
        decreases *binary, 1nat,
    {
        let opcode = match binary.operator {
            BinaryOperator::Equals => Opcode::Eq,
            BinaryOperator::NotEquals => Opcode::Ne,
            BinaryOperator::StrictEquals => Opcode::StrictEq,
            BinaryOperator::StrictNotEquals => Opcode::StrictNe,
            BinaryOperator::LessThan => Opcode::Lt,
            BinaryOperator::LessThanOrEqual => Opcode::Le,
            BinaryOperator::GreaterThan => Opcode::Gt,
            BinaryOperator::GreaterThanOrEqual => Opcode::Ge,
            BinaryOperator::In => Opcode::In,
            BinaryOperator::Instanceof => Opcode::Instanceof,
            BinaryOperator::LeftShift => Opcode::Lsh,
            BinaryOperator::RightShift => Opcode::Rsh,
            BinaryOperator::RightShiftExt => Opcode::Ursh,
            BinaryOperator::Add => Opcode::Add,
            BinaryOperator::Sub => Opcode::Sub,
            BinaryOperator::Mul => Opcode::Mul,
            BinaryOperator::Div => Opcode::Div,
            BinaryOperator::Mod => Opcode::Mod,
            BinaryOperator::Pow => Opcode::Pow,
            BinaryOperator::BitwiseOr => Opcode::BitOr,
            BinaryOperator::BitwiseXor => Opcode::BitXor,
            BinaryOperator::BitwiseAnd => Opcode::BitAnd,
            BinaryOperator::Coalesce => {
                self.emit_short_circuit(JumpKind::Coalesce, binary)?;
                return Ok(());
            },
            BinaryOperator::LogicalOr => {
                self.emit_short_circuit(JumpKind::LogicalOr, binary)?;
                return Ok(());
            },
            BinaryOperator::LogicalAnd => {
                self.emit_short_circuit(JumpKind::LogicalAnd, binary)?;
                return Ok(());
            },
            BinaryOperator::Comma => {
                self.emit_expression(&binary.left)?;
                self.emit.emit_op(Opcode::Pop);
                self.emit_expression(&binary.right)?;
                return Ok(());
            },
        };
        self.emit_expression(&binary.left)?;
        self.emit_expression(&binary.right)?;
        self.emit.emit_op(opcode);
        Ok(())
    }

    /// Emits `left || right`, `left && right` or `left ?? right`: the jump
    /// behind the left operand is reserved for the end of the expression and
    /// patched there.
    pub fn emit_short_circuit(&mut self, jump: JumpKind, binary: &BinaryExpression) -> (result:
        Result<(), EmitError>)
        requires
            old(self).wf(),
            emission::short_circuit_jump(binary.operator) == Some(jump),
        ensures
            final(self).expression_frame(old(self), result),
            emitted(
                old(self)@,
                final(self)@,
                result,
                emission::emit_short_circuit(old(self).context(), *binary, old(self)@),
                emission::binary_size(*binary),
                1,
            ),
        decreases *binary, 0nat,
    {
        self.emit_expression(&binary.left)?;
        let ghost merge = self@.offset() + 2 + emission::expression_size(*binary.right);
        let jump = ForwardJumpEmitter { jump }.emit(&mut self.emit, Ghost(merge));
        self.emit.emit_op(Opcode::Pop);
        self.emit_expression(&binary.right)?;
        jump.patch_merge(&mut self.emit);
        Ok(())
    }

    /// Emits `test ? consequent : alternate`.
    pub fn emit_conditional_expression(&mut self, conditional: &ConditionalExpression) -> (result:
        Result<(), EmitError>)
        requires
            old(self).wf(),
        ensures
            final(self).expression_frame(old(self), result),
            emitted(
                old(self)@,
                final(self)@,
                result,
                emission::emit_conditional_expression(
                    old(self).context(),
                    *conditional,
                    old(self)@,
                ),
                emission::expression_size(*conditional.test) + emission::expression_size(
                    *conditional.consequent,
                ) + emission::expression_size(*conditional.alternate) + 5,
                1,
            ),
        decreases *conditional, 0nat,
    {
        self.emit_expression(&conditional.test)?;
        let ghost otherwise = self@.offset() + 2 + emission::expression_size(
            *conditional.consequent,
        ) + 1;
        let ghost merge = otherwise + 1 + emission::expression_size(*conditional.alternate);
        let else_jump = ForwardJumpEmitter { jump: JumpKind::IfEq }.emit(
            &mut self.emit,
            Ghost(otherwise),
        );
        // Then branch
        self.emit.emit_jump_target();
        self.emit_expression(&conditional.consequent)?;
        let finally_jump = ForwardJumpEmitter { jump: JumpKind::Goto }.emit(
            &mut self.emit,
            Ghost(merge),
        );
        // Else branch
        else_jump.patch_not_merge(&mut self.emit);
        self.emit_expression(&conditional.alternate)?;
        // Merge point
        finally_jump.patch_merge(&mut self.emit);
        Ok(())
    }

    /// Emits `name = value`. Any other target is rejected before the value
    /// is emitted.
    pub fn emit_assignment_expression(&mut self, assignment: &AssignmentExpression) -> (result:
        Result<(), EmitError>)
        requires
            old(self).wf(),
        ensures
            final(self).expression_frame(old(self), result),
            emitted(
                old(self)@,
                final(self)@,
                result,
                emission::emit_assignment_expression(old(self).context(), *assignment, old(self)@),
                emission::expression_size(*assignment.expression) + 1,
                1,
            ),
        decreases *assignment, 0nat,
    {
        match &assignment.binding {
            AssignmentTarget::SimpleAssignmentTarget(
                SimpleAssignmentTarget::AssignmentTargetIdentifier(name),
            ) => {
                self.emit_expression(&assignment.expression)?;
                NameReferenceEmitter { name: *name }.emit_for_assignment(self);
                Ok(())
            },
            _ => Err(EmitError::NotImplemented("non-identifier assignment target")),
        }
    }
    /// Emits `object.property` or `object[expression]`.
    pub fn emit_member_expression(&mut self, member: &MemberExpression) -> (result: Result<
        (),
        EmitError,
    >)
        requires
            old(self).wf(),
        ensures
            final(self).expression_frame(old(self), result),
            emitted(
                old(self)@,
                final(self)@,
                result,
                emission::emit_member_expression(old(self).context(), *member, old(self)@),
                emission::member_size(*member),
                1,
            ),
        decreases *member, 0nat,
    {
        match member {
            MemberExpression::ComputedMemberExpression(computed) => match &computed.object {
                ExpressionOrSuper::Expression(object) => {
                    self.emit_expression(object)?;
                    self.emit_expression(&computed.expression)?;
                    self.emit.emit_op(Opcode::GetElem);
                    Ok(())
                },
                ExpressionOrSuper::Super => {
                    self.emit_this()?;
                    self.emit_expression(&computed.expression)?;
                    self.emit.emit_op(Opcode::GetElemSuper);
                    Ok(())
                },
            },
            MemberExpression::StaticMemberExpression(fixed) => match &fixed.object {
                ExpressionOrSuper::Expression(object) => {
                    self.emit_expression(object)?;
                    self.emit.emit_with_atom(Opcode::GetProp, fixed.property);
                    Ok(())
                },
                ExpressionOrSuper::Super => {
                    self.emit_this()?;
                    self.emit.emit_with_atom(Opcode::GetPropSuper, fixed.property);
                    Ok(())
                },
            },
            MemberExpression::PrivateFieldExpression => Err(
                EmitError::NotImplemented("PrivateFieldExpression"),
            ),
        }
    }

    /// Emits `new callee(arguments)`. A spread argument is rejected before
    /// anything is written.
    pub fn emit_new_expression(&mut self, new: &NewExpression) -> (result: Result<(), EmitError>)
        requires
            old(self).wf(),
        ensures
            final(self).expression_frame(old(self), result),
            emitted(
                old(self)@,
                final(self)@,
                result,
                emission::emit_new_expression(old(self).context(), *new, old(self)@),
                emission::expression_size(*new.callee) + emission::arguments_size(
                    new.arguments.args@,
                    0,
                ) + 1,
                1,
            ),
        decreases *new, 0nat,
    {
        let mut i: usize = 0;
        while i < new.arguments.args.len()
            invariant
                i <= new.arguments.args.len(),
                *self == *old(self),
                self.wf(),
                forall|j: int|
                    0 <= j < i ==> !((#[trigger] new.arguments.args@[j]) is SpreadElement),
            decreases new.arguments.args.len() - i,
        {
            if let Argument::SpreadElement(_) = &new.arguments.args[i] {
                return Err(EmitError::NotImplemented("TODO: SpreadNew"));
            }
            i = i + 1;
        }
        self.emit_expression(&new.callee)?;
        self.emit_arguments(&new.arguments)?;
        self.emit.emit_with_immediate(Opcode::New, new.arguments.args.len());
        Ok(())
    }

    /// Emits the callee of a call together with the `this` value of the call.
    pub fn emit_callee(&mut self, callee: &ExpressionOrSuper) -> (result: Result<(), EmitError>)
        requires
            old(self).wf(),
        ensures
            final(self).expression_frame(old(self), result),
            emitted(
                old(self)@,
                final(self)@,
                result,
                emission::emit_callee(old(self).context(), *callee, old(self)@),
                emission::callee_size(*callee),
                2,
            ),
        decreases *callee, 0nat,
    {
        match callee {
            ExpressionOrSuper::Expression(expression) => match &**expression {
                Expression::IdentifierExpression { name } => {
                    if *name == self.compilation_info.atoms.eval {
                        return Err(EmitError::NotImplemented("TODO: direct eval"));
                    }
                    NameReferenceEmitter { name: *name }.emit_for_call(self);
                    Ok(())
                },
                Expression::MemberExpression(MemberExpression::StaticMemberExpression(fixed)) => {
                    match &fixed.object {
                        ExpressionOrSuper::Expression(object) => {
                            self.emit_expression(object)?;
                            self.emit.emit_with_atom(Opcode::CallProp, fixed.property);
                            Ok(())
                        },
                        ExpressionOrSuper::Super => Err(
                            EmitError::NotImplemented(
                                "TODO: Call (only global functions are supported)",
                            ),
                        ),
                    }
                },
                Expression::MemberExpression(
                    MemberExpression::ComputedMemberExpression(computed),
                ) => {
                    match &computed.object {
                        ExpressionOrSuper::Expression(object) => {
                            self.emit_expression(object)?;
                            self.emit_expression(&computed.expression)?;
                            self.emit.emit_op(Opcode::CallElem);
                            Ok(())
                        },
                        ExpressionOrSuper::Super => Err(
                            EmitError::NotImplemented(
                                "TODO: Call (only global functions are supported)",
                            ),
                        ),
                    }
                },
                _ => Err(
                    EmitError::NotImplemented("TODO: Call (only global functions are supported)"),
                ),
            },
            ExpressionOrSuper::Super => Err(EmitError::NotImplemented("TODO: Super")),
        }
    }

    /// Emits `callee(arguments)`.
    pub fn emit_call_expression(&mut self, call: &CallExpression) -> (result: Result<
        (),
        EmitError,
    >)
        requires
            old(self).wf(),
        ensures
            final(self).expression_frame(old(self), result),
            emitted(
                old(self)@,
                final(self)@,
                result,
                emission::emit_call_expression(old(self).context(), *call, old(self)@),
                emission::callee_size(call.callee) + emission::arguments_size(
                    call.arguments.args@,
                    0,
                ) + 1,
                1,
            ),
        decreases *call, 0nat,
    {
        // Super is not routed through a shared helper: the bytecode depends
        // on how the super reference is used.
        self.emit_callee(&call.callee)?;
        self.emit_arguments(&call.arguments)?;
        self.emit.emit_with_immediate(Opcode::Call, call.arguments.args.len());
        Ok(())
    }

    /// Emits the arguments of a call, left to right.
    pub fn emit_arguments(&mut self, ast: &Arguments) -> (result: Result<(), EmitError>)
        requires
            old(self).wf(),
        ensures
            final(self).expression_frame(old(self), result),
            emitted(
                old(self)@,
                final(self)@,
                result,
                emission::emit_arguments(old(self).context(), ast.args@, 0, old(self)@),
                emission::arguments_size(ast.args@, 0),
                ast.args@.len() as int,
            ),
        decreases *ast, 1nat,
    {
        let mut i: usize = 0;
        while i < ast.args.len()
            invariant
                i <= ast.args.len(),
                self.expression_frame(old(self), Ok(())),
                emission::emit_arguments(old(self).context(), ast.args@, 0, old(self)@)
                    == emission::emit_arguments(self.context(), ast.args@, i as int, self@),
                self@.offset() + emission::arguments_size(ast.args@, i as int) == old(
                    self,
                )@.offset() + emission::arguments_size(ast.args@, 0),
                self@.writer.depth == old(self)@.writer.depth + i,
            decreases ast.args.len() - i,
        {
            self.emit_argument(&ast.args[i])?;
            i = i + 1;
        }
        Ok(())
    }

    /// Emits one argument of a call; a spread argument is rejected.
    pub fn emit_argument(&mut self, ast: &Argument) -> (result: Result<(), EmitError>)
        requires
            old(self).wf(),
        ensures
            final(self).expression_frame(old(self), result),
            emitted(
                old(self)@,
                final(self)@,
                result,
                match *ast {
                    Argument::Expression(e) => emission::emit_expression(
                        old(self).context(),
                        e,
                        old(self)@,
                    ),
                    Argument::SpreadElement(_) => emission::unsupported("TODO: SpreadElement"),
                },
                match *ast {
                    Argument::Expression(e) => emission::expression_size(e),
                    Argument::SpreadElement(_) => 0,
                },
                1,
            ),
        decreases *ast, 0nat,
    {
        match ast {
            Argument::Expression(ast) => self.emit_expression(ast)?,
            Argument::SpreadElement(_) => {
                return Err(EmitError::NotImplemented("TODO: SpreadElement"));
            },
        }
        Ok(())
    }

    /// Emits an object literal.
    pub fn emit_object_expression(&mut self, object: &ObjectExpression) -> (result: Result<
        (),
        EmitError,
    >)
        requires
            old(self).wf(),
        ensures
            final(self).expression_frame(old(self), result),
            emitted(
                old(self)@,
                final(self)@,
                result,
                emission::emit_object_expression(old(self).context(), *object, old(self)@),
                1 + emission::properties_size(object.properties@, 0),
                1,
            ),
        decreases *object, 1nat,
    {
        self.emit.emit_op(Opcode::NewInit);
        let ghost opened = self@;
        let mut i: usize = 0;
        while i < object.properties.len()
            invariant
                i <= object.properties.len(),
                self.expression_frame(old(self), Ok(())),
                opened == old(self)@.op(Opcode::NewInit),
                emission::emit_object_properties(
                    old(self).context(),
                    object.properties@,
                    0,
                    opened,
                ) == emission::emit_object_properties(
                    self.context(),
                    object.properties@,
                    i as int,
                    self@,
                ),
                self@.offset() + emission::properties_size(object.properties@, i as int) == old(
                    self,
                )@.offset() + 1 + emission::properties_size(object.properties@, 0),
                self@.writer.depth == old(self)@.writer.depth + 1,
            decreases object.properties.len() - i,
        {
            self.emit_object_property(&object.properties[i])?;
            i = i + 1;
        }
        Ok(())
    }

    /// Emits one property of an object literal; the object is on top of
    /// the stack before and after.
    pub fn emit_object_property(&mut self, property: &ObjectProperty) -> (result: Result<
        (),
        EmitError,
    >)
        requires
            old(self).wf(),
            old(self)@.writer.depth >= 1,
        ensures
            final(self).expression_frame(old(self), result),
            emitted(
                old(self)@,
                final(self)@,
                result,
                emission::emit_object_property(old(self).context(), *property, old(self)@),
                emission::property_size(*property),
                0,
            ),
        decreases *property, 0nat,
    {
        match property {
            ObjectProperty::NamedObjectProperty(NamedObjectProperty::DataProperty(data)) => {
                match &data.property_name {
                    PropertyName::StaticPropertyName(key) => {
                        self.emit_expression(&data.expression)?;
                        self.emit.emit_with_atom(Opcode::InitProp, *key);
                    },
                    PropertyName::StaticNumericPropertyName(key) => {
                        self.emit.emit_with_number(Opcode::Double, *key);
                        self.emit_expression(&data.expression)?;
                        self.emit.emit_op(Opcode::InitElem);
                    },
                    PropertyName::ComputedPropertyName(key) => {
                        self.emit_expression(key)?;
                        self.emit_expression(&data.expression)?;
                        self.emit.emit_op(Opcode::InitElem);
                    },
                }
            },
            _ => {
                return Err(EmitError::NotImplemented("TODO: non data property"));
            },
        }
        Ok(())
    }

    /// Emits an array literal.
    pub fn emit_array_expression(&mut self, array: &ArrayExpression) -> (result: Result<
        (),
        EmitError,
    >)
        requires
            old(self).wf(),
        ensures
            final(self).expression_frame(old(self), result),
            emitted(
                old(self)@,
                final(self)@,
                result,
                emission::emit_array_expression(old(self).context(), *array, old(self)@),
                1 + emission::array_elements_size(array.elements@, 0, false),
                1,
            ),
        decreases *array, 1nat,
    {
        self.emit.emit_with_immediate(Opcode::NewArray, array.elements.len());
        let ghost opened = self@;
        let mut state = ArrayEmitterState::BeforeSpread { index: 0 };
        let mut i: usize = 0;
        while i < array.elements.len()
            invariant
                i <= array.elements.len(),
                self.expression_frame(old(self), Ok(())),
                opened == old(self)@.immediate(Opcode::NewArray, array.elements@.len() as usize),
                state matches ArrayEmitterState::BeforeSpread { index } ==> index == i,
                emission::emit_array_elements(
                    old(self).context(),
                    array.elements@,
                    0,
                    false,
                    opened,
                ) == emission::emit_array_elements(
                    self.context(),
                    array.elements@,
                    i as int,
                    state is AfterSpread,
                    self@,
                ),
                self@.offset() + emission::array_elements_size(
                    array.elements@,
                    i as int,
                    state is AfterSpread,
                ) == old(self)@.offset() + 1 + emission::array_elements_size(
                    array.elements@,
                    0,
                    false,
                ),
                self@.writer.depth == old(self)@.writer.depth + if state is AfterSpread {
                    2int
                } else {
                    1int
                },
            decreases array.elements.len() - i,
        {
            match &array.elements[i] {
                ArrayExpressionElement::Expression(e) => {
                    self.emit_expression(e)?;
                    match state {
                        ArrayEmitterState::BeforeSpread { index } => {
                            self.emit.emit_with_immediate(Opcode::InitElemArray, index);
                            state = ArrayEmitterState::BeforeSpread { index: index + 1 };
                        },
                        ArrayEmitterState::AfterSpread => {
                            self.emit.emit_op(Opcode::InitElemInc);
                        },
                    }
                },
                ArrayExpressionElement::Elision => {
                    match state {
                        ArrayEmitterState::BeforeSpread { index } => {
                            state = ArrayEmitterState::BeforeSpread { index: index + 1 };
                        },
                        ArrayEmitterState::AfterSpread => {
                            self.emit.emit_op(Opcode::Hole);
                            self.emit.emit_op(Opcode::InitElemInc);
                        },
                    }
                },
                ArrayExpressionElement::SpreadElement(e) => {
                    match state {
                        ArrayEmitterState::BeforeSpread { index } => {
                            self.emit.emit_with_immediate(Opcode::Int32, index);
                            state = ArrayEmitterState::AfterSpread;
                        },
                        ArrayEmitterState::AfterSpread => {},
                    }
                    self.emit_expression(e)?;
                    self.emit.emit_op(Opcode::Spread);
                },
            }
            i = i + 1;
        }
        match state {
            ArrayEmitterState::BeforeSpread { .. } => {},
            ArrayEmitterState::AfterSpread => {
                self.emit.emit_op(Opcode::Pop);
            },
        }
        Ok(())
    }
    /// Emits a script: enters its scope, emits its statements and leaves the
    /// scope again, whether the statements were accepted or not.
    pub fn emit_script(&mut self, ast: &Script) -> (result: Result<(), EmitError>)
        requires
            old(self).wf(),
            old(self).loops_wf(),
        ensures
            final(self).statement_frame(old(self), result),
            emitted(
                old(self)@,
                final(self)@,
                result,
                emission::emit_script(old(self).context(), *ast, old(self)@),
                emission::statements_size(ast.statements@, 0),
                0,
            ),
    {
        self.scope_stack.enter(&self.compilation_info.scope_data_map)?;
        let ghost entered = *self;
        let emitted = self.emit_statements(&ast.statements);
        self.scope_stack.exit();
        proof {
            assert(entered.scope_stack@.frames.drop_last() =~= old(self).scope_stack@.frames);
        }
        emitted
    }

    /// Emits the statements of a block or a script in source order.
    pub fn emit_statements(&mut self, statements: &Vec<Statement>) -> (result: Result<
        (),
        EmitError,
    >)
        requires
            old(self).wf(),
            old(self).loops_wf(),
        ensures
            final(self).statement_frame(old(self), result),
            emitted(
                old(self)@,
                final(self)@,
                result,
                emission::emit_statements(old(self).context(), statements@, 0, old(self)@),
                emission::statements_size(statements@, 0),
                0,
            ),
        decreases *statements, 0nat,
    {
        proof {
            self.loop_stack.lemma_grown_from_refl();
        }
        let mut i: usize = 0;
        while i < statements.len()
            invariant
                i <= statements.len(),
                self.statement_frame(old(self), Ok(())),
                emission::emit_statements(old(self).context(), statements@, 0, old(self)@)
                    == emission::emit_statements(self.context(), statements@, i as int, self@),
                self@.offset() + emission::statements_size(statements@, i as int) == old(
                    self,
                )@.offset() + emission::statements_size(statements@, 0),
                self@.writer.depth == old(self)@.writer.depth,
            decreases statements.len() - i,
        {
            let ghost middle = *self;
            self.emit_statement(&statements[i])?;
            proof {
                self.lemma_statement_frames(&middle, old(self));
            }
            i = i + 1;
        }
        Ok(())
    }

    /// Emits a statement. On success the buffer holds the instructions
    /// [`emission::emit_statement`] describes and the operand stack is as high
    /// as before. On failure the scopes and loops that were open are open
    /// again.
    pub fn emit_statement(&mut self, ast: &Statement) -> (result: Result<(), EmitError>)
        requires
            old(self).wf(),
            old(self).loops_wf(),
        ensures
            final(self).statement_frame(old(self), result),
            emitted(
                old(self)@,
                final(self)@,
                result,
                emission::emit_statement(old(self).context(), *ast, old(self)@),
                emission::statement_size(*ast),
                0,
            ),
        decreases *ast, 0nat,
    {
        proof {
            self.loop_stack.lemma_grown_from_refl();
        }
        match ast {
            Statement::ClassDeclaration => {
                return Err(EmitError::NotImplemented("TODO: ClassDeclaration"));
            },
            Statement::BlockStatement { block } => {
                self.scope_stack.enter(&self.compilation_info.scope_data_map)?;
                let ghost entered = *self;
                let emitted = self.emit_statements(&block.statements);
                self.scope_stack.exit();
                proof {
                    assert(entered.scope_stack@.frames.drop_last() =~= old(
                        self,
                    ).scope_stack@.frames);
                }
                emitted?;
            },
            Statement::BreakStatement { label } => {
                if let Some(_label) = label {
                    return Err(EmitError::NotImplemented("TODO: Labeled BreakStatement"));
                }
                self.loop_stack.emit_break(&mut self.emit, JumpKind::Goto)?;
            },
            Statement::ContinueStatement { label } => {
                if let Some(_label) = label {
                    return Err(EmitError::NotImplemented("TODO: Labeled ContinueStatement"));
                }
                self.loop_stack.emit_continue(&mut self.emit, JumpKind::Goto)?;
            },
            Statement::DebuggerStatement => {
                return Err(EmitError::NotImplemented("TODO: DebuggerStatement"));
            },
            Statement::DoWhileStatement(do_while) => {
                self.emit_do_while(do_while)?;
            },
            Statement::EmptyStatement => (),
            Statement::ExpressionStatement(ast) => {
                self.emit_expression(ast)?;
                self.emit.emit_op(Opcode::Pop);
                proof {
                    self.lemma_expression_as_statement(old(self));
                }
            },
            Statement::ForInStatement => {
                return Err(EmitError::NotImplemented("TODO: ForInStatement"));
            },
            Statement::ForOfStatement => {
                return Err(EmitError::NotImplemented("TODO: ForOfStatement"));
            },
            Statement::ForStatement(for_statement) => {
                self.emit_for(for_statement)?;
            },
            Statement::IfStatement(if_statement) => {
                self.emit_if(if_statement)?;
            },
            Statement::LabeledStatement => {
                return Err(EmitError::NotImplemented("TODO: LabeledStatement"));
            },
            Statement::ReturnStatement => {
                return Err(EmitError::NotImplemented("TODO: ReturnStatement"));
            },
            Statement::SwitchStatement => {
                return Err(EmitError::NotImplemented("TODO: SwitchStatement"));
            },
            Statement::SwitchStatementWithDefault => {
                return Err(EmitError::NotImplemented("TODO: SwitchStatementWithDefault"));
            },
            Statement::ThrowStatement { expression } => {
                self.emit_expression(expression)?;
                self.emit.emit_op(Opcode::Throw);
                proof {
                    self.lemma_expression_as_statement(old(self));
                }
            },
            Statement::TryCatchStatement => {
                return Err(EmitError::NotImplemented("TODO: TryCatchStatement"));
            },
            Statement::TryFinallyStatement => {
                return Err(EmitError::NotImplemented("TODO: TryFinallyStatement"));
            },
            Statement::VariableDeclarationStatement(ast) => {
                self.emit_variable_declaration_statement(ast)?;
                proof {
                    self.lemma_expression_as_statement(old(self));
                }
            },
            Statement::WhileStatement(while_statement) => {
                self.emit_while(while_statement)?;
            },
            Statement::WithStatement => {
                return Err(EmitError::NotImplemented("TODO: WithStatement"));
            },
            Statement::FunctionDeclaration { .. } => {
                return Err(EmitError::NotImplemented("TODO: FunctionDeclaration"));
            },
        };
        Ok(())
    }

    /// Emits the initializers of a `var`, `let` or `const` statement.
    pub fn emit_variable_declaration_statement(&mut self, ast: &VariableDeclaration) -> (result:
        Result<(), EmitError>)
        requires
            old(self).wf(),
        ensures
            final(self).expression_frame(old(self), result),
            emitted(
                old(self)@,
                final(self)@,
                result,
                emission::emit_variable_declaration_statement(
                    old(self).context(),
                    *ast,
                    old(self)@,
                ),
                emission::declarators_size(ast.declarators@, 0),
                0,
            ),
    {
        let mut i: usize = 0;
        while i < ast.declarators.len()
            invariant
                i <= ast.declarators.len(),
                self.expression_frame(old(self), Ok(())),
                emission::emit_declarators(old(self).context(), ast.declarators@, 0, old(self)@)
                    == emission::emit_declarators(
                    self.context(),
                    ast.declarators@,
                    i as int,
                    self@,
                ),
                self@.offset() + emission::declarators_size(ast.declarators@, i as int) == old(
                    self,
                )@.offset() + emission::declarators_size(ast.declarators@, 0),
                self@.writer.depth == old(self)@.writer.depth,
            decreases ast.declarators.len() - i,
        {
            let decl = &ast.declarators[i];
            if let Some(init) = &decl.init {
                self.emit_declaration_assignment(&decl.binding, init)?;
            }
            i = i + 1;
        }
        Ok(())
    }

    /// Emits `binding = init` of a declaration. A pattern is rejected before
    /// the initializer is emitted.
    pub fn emit_declaration_assignment(&mut self, binding: &Binding, init: &Expression) -> (result:
        Result<(), EmitError>)
        requires
            old(self).wf(),
        ensures
            final(self).expression_frame(old(self), result),
            emitted(
                old(self)@,
                final(self)@,
                result,
                emission::emit_declaration_assignment(
                    old(self).context(),
                    *binding,
                    *init,
                    old(self)@,
                ),
                emission::expression_size(*init) + 2,
                0,
            ),
    {
        match binding {
            Binding::BindingIdentifier(name) => {
                self.emit_expression(init)?;
                NameReferenceEmitter { name: *name }.emit_for_declaration(self);
                self.emit.emit_op(Opcode::Pop);
            },
            _ => {
                return Err(EmitError::NotImplemented("BindingPattern"));
            },
        }
        Ok(())
    }

    /// Emits an `if` statement.
    pub fn emit_if(&mut self, if_statement: &IfStatement) -> (result: Result<(), EmitError>)
        requires
            old(self).wf(),
            old(self).loops_wf(),
        ensures
            final(self).statement_frame(old(self), result),
            emitted(
                old(self)@,
                final(self)@,
                result,
                emission::emit_if(old(self).context(), *if_statement, old(self)@),
                emission::if_size(*if_statement),
                0,
            ),
        decreases *if_statement, 0nat,
    {
        self.emit_expression(&if_statement.test)?;
        let ghost then_size = emission::statement_size(*if_statement.consequent);
        let ghost otherwise = if if_statement.alternate is Some {
            self@.offset() + 2 + then_size + 1
        } else {
            self@.offset() + 2 + then_size
        };
        let alternate_jump = ForwardJumpEmitter { jump: JumpKind::IfEq }.emit(
            &mut self.emit,
            Ghost(otherwise),
        );
        // Then branch
        self.emit.emit_jump_target();
        proof {
            self.loop_stack.lemma_wf_kept(old(self).emit, self.emit);
        }
        self.emit_statement(&if_statement.consequent)?;
        let ghost branched = *self;
        if let Some(alternate) = &if_statement.alternate {
            let ghost merge = otherwise + 1 + emission::statement_size(**alternate);
            let then_jump = ForwardJumpEmitter { jump: JumpKind::Goto }.emit(
                &mut self.emit,
                Ghost(merge),
            );
            // Else branch
            alternate_jump.patch_not_merge(&mut self.emit);
            proof {
                self.loop_stack.lemma_wf_kept(branched.emit, self.emit);
            }
            self.emit_statement(alternate)?;
            let ghost finished = *self;
            // Merge point after else
            then_jump.patch_merge(&mut self.emit);
            proof {
                self.loop_stack.lemma_wf_kept(finished.emit, self.emit);
                finished.loop_stack.lemma_grown_from_trans(
                    branched.loop_stack,
                    old(self).loop_stack,
                );
            }
        } else {
            // Merge point without else
            alternate_jump.patch_merge(&mut self.emit);
            proof {
                self.loop_stack.lemma_wf_kept(branched.emit, self.emit);
            }
        }
        Ok(())
    }

    /// Emits a `while` loop.
    pub fn emit_while(&mut self, while_statement: &WhileStatement) -> (result: Result<
        (),
        EmitError,
    >)
        requires
            old(self).wf(),
            old(self).loops_wf(),
        ensures
            final(self).statement_frame(old(self), result),
            emitted(
                old(self)@,
                final(self)@,
                result,
                emission::emit_while(old(self).context(), *while_statement, old(self)@),
                emission::expression_size(while_statement.test) + emission::statement_size(
                    *while_statement.block,
                ) + 4,
                0,
            ),
        decreases *while_statement, 0nat,
    {
        let head = self.emit.bytecode_offset();
        let ghost exit = head + 1 + emission::expression_size(while_statement.test) + 1
            + emission::statement_size(*while_statement.block) + 1;
        self.loop_stack.open_loop(
            &mut self.emit,
            Ghost(LoopTargets { break_target: exit, continue_target: head as int }),
        );
        let ghost opened = *self;
        if let Err(err) = self.emit_expression(&while_statement.test) {
            self.loop_stack.abandon_loop();
            return Err(err);
        }
        proof {
            self.loop_stack.lemma_wf_kept(opened.emit, self.emit);
        }
        if let Err(err) = self.loop_stack.emit_break(&mut self.emit, JumpKind::IfEq) {
            return Err(err);
        }
        let ghost tested = *self;
        if let Err(err) = self.emit_statement(&while_statement.block) {
            self.loop_stack.abandon_loop();
            return Err(err);
        }
        let ghost looped = *self;
        proof {
            looped.loop_stack.lemma_grown_from(tested.loop_stack);
            tested.loop_stack.lemma_grown_from(opened.loop_stack);
        }
        self.loop_stack.patch_continues(&mut self.emit, head);
        let ghost patched = *self;
        self.emit.emit_jump_backward(JumpKind::Goto, head);
        proof {
            self.loop_stack.lemma_wf_kept(patched.emit, self.emit);
            looped.loop_stack.lemma_same_enclosing(tested.loop_stack, opened.loop_stack);
            patched.loop_stack.lemma_same_enclosing(looped.loop_stack, opened.loop_stack);
        }
        self.loop_stack.close_loop(&mut self.emit);
        proof {
            self.loop_stack.lemma_closed(
                opened.loop_stack,
                patched.loop_stack,
                old(self).loop_stack,
            );
        }
        Ok(())
    }

    /// Emits a `do`-`while` loop.
    pub fn emit_do_while(&mut self, do_while: &DoWhileStatement) -> (result: Result<
        (),
        EmitError,
    >)
        requires
            old(self).wf(),
            old(self).loops_wf(),
        ensures
            final(self).statement_frame(old(self), result),
            emitted(
                old(self)@,
                final(self)@,
                result,
                emission::emit_do_while(old(self).context(), *do_while, old(self)@),
                emission::statement_size(*do_while.block) + emission::expression_size(
                    do_while.test,
                ) + 4,
                0,
            ),
        decreases *do_while, 0nat,
    {
        let head = self.emit.bytecode_offset();
        let ghost again = head + 1 + emission::statement_size(*do_while.block);
        let ghost exit = again + 1 + emission::expression_size(do_while.test) + 1;
        self.loop_stack.open_loop(
            &mut self.emit,
            Ghost(LoopTargets { break_target: exit, continue_target: again }),
        );
        let ghost opened = *self;
        if let Err(err) = self.emit_statement(&do_while.block) {
            self.loop_stack.abandon_loop();
            return Err(err);
        }
        let ghost looped = *self;
        proof {
            looped.loop_stack.lemma_grown_from(opened.loop_stack);
        }
        let target = self.emit.bytecode_offset();
        self.loop_stack.patch_continues(&mut self.emit, target);
        let ghost patched = *self;
        self.emit.emit_jump_target();
        if let Err(err) = self.emit_expression(&do_while.test) {
            self.loop_stack.abandon_loop();
            return Err(err);
        }
        self.emit.emit_jump_backward(JumpKind::IfNe, head);
        proof {
            self.loop_stack.lemma_wf_kept(patched.emit, self.emit);
            patched.loop_stack.lemma_same_enclosing(looped.loop_stack, opened.loop_stack);
        }
        self.loop_stack.close_loop(&mut self.emit);
        proof {
            self.loop_stack.lemma_closed(
                opened.loop_stack,
                patched.loop_stack,
                old(self).loop_stack,
            );
        }
        Ok(())
    }

    /// Emits a C-style `for` loop.
    pub fn emit_for(&mut self, for_statement: &ForStatement) -> (result: Result<(), EmitError>)
        requires
            old(self).wf(),
            old(self).loops_wf(),
        ensures
            final(self).statement_frame(old(self), result),
            emitted(
                old(self)@,
                final(self)@,
                result,
                emission::emit_for(old(self).context(), *for_statement, old(self)@),
                emission::for_init_size(for_statement.init) + emission::optional_size(
                    for_statement.test,
                ) + emission::statement_size(*for_statement.block) + emission::optional_size(
                    for_statement.update,
                ) + 4,
                0,
            ),
        decreases *for_statement, 0nat,
    {
        match &for_statement.init {
            None => {},
            Some(VariableDeclarationOrExpression::VariableDeclaration(ast)) => {
                self.emit_variable_declaration_statement(ast)?;
            },
            Some(VariableDeclarationOrExpression::Expression(expr)) => {
                self.emit_expression(expr)?;
                self.emit.emit_op(Opcode::Pop);
            },
        }
        proof {
            self.loop_stack.lemma_wf_kept(old(self).emit, self.emit);
        }
        let ghost started = *self;
        let head = self.emit.bytecode_offset();
        let ghost again = head + 1 + emission::optional_size(for_statement.test)
            + emission::statement_size(*for_statement.block);
        let ghost exit = again + 1 + emission::optional_size(for_statement.update) + 1;
        self.loop_stack.open_loop(
            &mut self.emit,
            Ghost(LoopTargets { break_target: exit, continue_target: again }),
        );
        let ghost opened = *self;
        if let Some(test) = &for_statement.test {
            if let Err(err) = self.emit_expression(test) {
                self.loop_stack.abandon_loop();
                return Err(err);
            }
            proof {
                self.loop_stack.lemma_wf_kept(opened.emit, self.emit);
            }
            if let Err(err) = self.loop_stack.emit_break(&mut self.emit, JumpKind::IfEq) {
                return Err(err);
            }
        }
        let ghost tested = *self;
        proof {
            tested.loop_stack.lemma_grown_from_refl();
        }
        if let Err(err) = self.emit_statement(&for_statement.block) {
            self.loop_stack.abandon_loop();
            return Err(err);
        }
        let ghost looped = *self;
        proof {
            looped.loop_stack.lemma_grown_from(tested.loop_stack);
            if for_statement.test is Some {
                tested.loop_stack.lemma_grown_from(opened.loop_stack);
            }
        }
        let target = self.emit.bytecode_offset();
        self.loop_stack.patch_continues(&mut self.emit, target);
        let ghost patched = *self;
        self.emit.emit_jump_target();
        if let Some(update) = &for_statement.update {
            if let Err(err) = self.emit_expression(update) {
                self.loop_stack.abandon_loop();
                return Err(err);
            }
            self.emit.emit_op(Opcode::Pop);
        }
        self.emit.emit_jump_backward(JumpKind::Goto, head);
        proof {
            self.loop_stack.lemma_wf_kept(patched.emit, self.emit);
            if for_statement.test is Some {
                looped.loop_stack.lemma_same_enclosing(tested.loop_stack, opened.loop_stack);
                patched.loop_stack.lemma_same_enclosing(looped.loop_stack, opened.loop_stack);
            } else {
                patched.loop_stack.lemma_same_enclosing(looped.loop_stack, opened.loop_stack);
            }
        }
        self.loop_stack.close_loop(&mut self.emit);
        proof {
            self.loop_stack.lemma_closed(opened.loop_stack, patched.loop_stack, started.loop_stack);
            self.loop_stack.lemma_grown_from_refl();
        }
        Ok(())
    }
}

/// How far the elements of an array literal have been emitted.
pub enum ArrayEmitterState {
    /// No spread element so far: the next element goes to `index`.
    BeforeSpread { index: usize },
    /// A spread element came by: the next index is a value on the stack.
    AfterSpread,
}

} // verus!
