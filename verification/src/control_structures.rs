//! Jumps and loops: forward jumps that are patched once their target is
//! reached, and the stack of loops that `break` and `continue` refer to.

use vstd::prelude::*;
use crate::emitter::{keeps_loop_pending, keeps_pending, keeps_pending_except, EmitError,
    InstructionWriter};
use crate::opcode::{Instruction, JumpKind, Opcode, Operand};

verus! {

/// A forward jump that waits for its target. The token is handed out when
/// the jump is written and is used up by patching it.
pub struct JumpPatchToken {
    offset: usize,
    depth: usize,
}

impl JumpPatchToken {
    /// The offset of the jump.
    pub closed spec fn offset(&self) -> int {
        self.offset as int
    }

    /// The operand-stack height right after the jump, which is the height
    /// at its target.
    pub closed spec fn depth(&self) -> nat {
        self.depth as nat
    }

    /// Lets the jump land on the next instruction, a point that the
    /// instruction before it falls through to. The two paths must meet
    /// with one stack height.
    pub fn patch_merge(self, emit: &mut InstructionWriter)
        requires
            old(emit).wf(),
            old(emit).is_pending_to(self.offset(), old(emit)@.offset() as int),
            old(emit)@.depth == self.depth(),
        ensures
            final(emit).wf(),
            final(emit)@ == old(emit)@.op(Opcode::JumpTarget),
            !final(emit).is_pending(self.offset()),
            final(emit).pending_count() + 1 == old(emit).pending_count(),
            keeps_pending_except(*old(emit), *final(emit), self.offset()),
            keeps_loop_pending(*old(emit), *final(emit)),
    {
        let target = emit.bytecode_offset();
        emit.patch_jump(self.offset, target);
        emit.emit_jump_target();
    }

    /// Lets the jump land on the next instruction, a point that the
    /// instruction before it does not fall through to. The stack height
    /// there is the one the jump left.
    pub fn patch_not_merge(self, emit: &mut InstructionWriter)
        requires
            old(emit).wf(),
            old(emit).is_pending_to(self.offset(), old(emit)@.offset() as int),
            self.depth() <= self.offset() + 1,
        ensures
            final(emit).wf(),
            final(emit)@ == old(emit)@.with_depth(self.depth()).op(Opcode::JumpTarget),
            !final(emit).is_pending(self.offset()),
            final(emit).pending_count() + 1 == old(emit).pending_count(),
            keeps_pending_except(*old(emit), *final(emit), self.offset()),
            keeps_loop_pending(*old(emit), *final(emit)),
    {
        let target = emit.bytecode_offset();
        emit.patch_jump(self.offset, target);
        emit.set_stack_depth(self.depth);
        emit.emit_jump_target();
    }
}

/// Writes a jump to a point that has not been emitted yet.
pub struct ForwardJumpEmitter {
    pub jump: JumpKind,
}

impl ForwardJumpEmitter {
    /// Writes the jump. `target` is the offset the token will be patched to.
    pub fn emit(self, emit: &mut InstructionWriter, Ghost(target): Ghost<int>) -> (token:
        JumpPatchToken)
        requires
            old(emit).wf(),
            (Instruction { opcode: self.jump.spec_opcode(), operand: Operand::Unpatched }).fits(
                old(emit)@.depth,
            ),
        ensures
            final(emit).wf(),
            final(emit)@ == old(emit)@.jump(self.jump, target),
            token.offset() == old(emit)@.offset(),
            token.depth() == final(emit)@.depth,
            token.depth() <= token.offset() + 1,
            final(emit).is_pending_to(token.offset(), target),
            final(emit).pending_count() == old(emit).pending_count() + 1,
            keeps_pending(*old(emit), *final(emit)),
            keeps_loop_pending(*old(emit), *final(emit)),
    {
        let offset = emit.reserve_jump(self.jump, Ghost(target), Ghost(false));
        JumpPatchToken { offset, depth: emit.stack_depth() }
    }
}

/// Where the jumps of a loop land.
pub struct LoopTargets {
    /// The offset of the landing point that ends the loop.
    pub break_target: int,
    /// The offset a `continue` lands on: the head of a `while` loop, the
    /// landing point in front of the test of a `do`-`while` loop or in
    /// front of the update of a `for` loop.
    pub continue_target: int,
}

/// One open loop: where it began, how high the operand stack was there,
/// and the jumps out of it and to its continue point that wait for their
/// targets.
pub struct LoopControl {
    head: usize,
    depth: usize,
    breaks: Vec<usize>,
    continues: Vec<usize>,
    targets: Ghost<LoopTargets>,
}

impl LoopControl {
    spec fn ok(self, emit: InstructionWriter, limit: int) -> bool {
        &&& self.head <= limit
        &&& self.depth <= self.head
        &&& forall|a: int|
            0 <= a < self.breaks@.len() ==> self.head <= (#[trigger] self.breaks@[a]) < limit
                && emit.is_loop_pending_to(self.breaks@[a] as int, self.targets@.break_target)
        &&& forall|a: int|
            0 <= a < self.continues@.len() ==> self.head <= (#[trigger] self.continues@[a])
                < limit && emit.is_loop_pending_to(
                self.continues@[a] as int,
                self.targets@.continue_target,
            )
        &&& forall|a: int, b: int|
            0 <= a < b < self.breaks@.len() ==> (#[trigger] self.breaks@[a])
                < (#[trigger] self.breaks@[b])
        &&& forall|a: int, b: int|
            0 <= a < b < self.continues@.len() ==> (#[trigger] self.continues@[a])
                < (#[trigger] self.continues@[b])
        &&& forall|a: int, b: int|
            0 <= a < self.breaks@.len() && 0 <= b < self.continues@.len()
                ==> (#[trigger] self.breaks@[a]) != (#[trigger] self.continues@[b])
    }
}

proof fn lemma_heads_ordered(stack: LoopStack, emit: InstructionWriter, i: int, j: int)
    requires
        stack.wf(emit),
        0 <= i < j < stack.loops@.len(),
    ensures
        stack.limit(emit, i) <= stack.loops@[j].head,
    decreases j - i,
{
    if i + 1 < j {
        lemma_heads_ordered(stack, emit, i + 1, j);
        assert(stack.loops@[i + 1].ok(emit, stack.limit(emit, i + 1)));
    }
}

/// The loops that enclose the point the emitter has reached, innermost last.
pub struct LoopStack {
    loops: Vec<LoopControl>,
}

impl View for LoopStack {
    type V = Seq<LoopTargets>;

    closed spec fn view(&self) -> Seq<LoopTargets> {
        Seq::new(self.loops@.len(), |j: int| self.loops@[j].targets@)
    }
}

impl LoopStack {
    spec fn limit(&self, emit: InstructionWriter, j: int) -> int {
        if j + 1 < self.loops@.len() {
            self.loops@[j + 1].head as int
        } else {
            emit.raw().len() as int
        }
    }

    /// Every jump recorded in the stack is pending in `emit` and reserved
    /// for the target of the loop and the list it is recorded in, and no
    /// jump is recorded twice.
    pub closed spec fn wf(&self, emit: InstructionWriter) -> bool {
        forall|j: int|
            0 <= j < self.loops@.len() ==> (#[trigger] self.loops@[j]).ok(emit, self.limit(emit, j))
    }

    /// The number of jumps recorded for the innermost loop.
    pub closed spec fn recorded(&self) -> nat {
        if self.loops@.len() == 0 {
            0
        } else {
            self.loops@.last().breaks@.len() + self.loops@.last().continues@.len()
        }
    }

    /// The number of `continue` jumps recorded for the innermost loop.
    pub closed spec fn recorded_continues(&self) -> nat {
        if self.loops@.len() == 0 {
            0
        } else {
            self.loops@.last().continues@.len()
        }
    }

    /// The operand-stack height at which the innermost loop was opened.
    pub closed spec fn depth(&self) -> nat {
        if self.loops@.len() == 0 {
            0
        } else {
            self.loops@.last().depth as nat
        }
    }

    /// The offset of the head of the innermost loop.
    pub closed spec fn head(&self) -> nat {
        if self.loops@.len() == 0 {
            0
        } else {
            self.loops@.last().head as nat
        }
    }

    /// `self` is `before` with more jumps recorded for the innermost loop.
    pub closed spec fn grown_from(&self, before: LoopStack) -> bool {
        &&& self.loops@.len() == before.loops@.len()
        &&& forall|j: int|
            0 <= j < self.loops@.len() - 1 ==> (#[trigger] self.loops@[j]) == before.loops@[j]
        &&& self.loops@.len() > 0 ==> {
            let now = self.loops@.last();
            let then = before.loops@.last();
            &&& now.head == then.head
            &&& now.depth == then.depth
            &&& now.targets@ == then.targets@
            &&& now.breaks@.len() >= then.breaks@.len()
            &&& now.continues@.len() >= then.continues@.len()
        }
    }

    /// A stack that has grown shows the same loops.
    pub proof fn lemma_grown_from(&self, before: LoopStack)
        requires
            self.grown_from(before),
        ensures
            self@ == before@,
            self.depth() == before.depth(),
            self.head() == before.head(),
            self.recorded() >= before.recorded(),
            self.recorded_continues() >= before.recorded_continues(),
    {
        assert(self@ =~= before@) by {
            assert forall|j: int| 0 <= j < self.loops@.len() implies self.loops@[j].targets@
                == before.loops@[j].targets@ by {
                if j < self.loops@.len() - 1 {
                    assert(self.loops@[j] == before.loops@[j]);
                }
            }
        }
    }

    /// A stack has grown from itself.
    pub proof fn lemma_grown_from_refl(&self)
        ensures
            self.grown_from(*self),
    {
    }

    /// With no loop open nothing is recorded.
    pub proof fn lemma_empty(&self)
        requires
            self@.len() == 0,
        ensures
            self.recorded() == 0,
            self.recorded_continues() == 0,
    {
    }

    /// Growth composes.
    pub proof fn lemma_grown_from_trans(&self, middle: LoopStack, before: LoopStack)
        requires
            self.grown_from(middle),
            middle.grown_from(before),
        ensures
            self.grown_from(before),
    {
        assert forall|j: int| 0 <= j < self.loops@.len() - 1 implies (#[trigger] self.loops@[j])
            == before.loops@[j] by {
            assert(middle.loops@[j] == before.loops@[j]);
        }
    }

    /// The stack stays well formed while the buffer only grows and keeps
    /// its pending jumps.
    pub proof fn lemma_wf_kept(&self, before: InstructionWriter, after: InstructionWriter)
        requires
            self.wf(before),
            keeps_loop_pending(before, after),
            before.raw().len() <= after.raw().len(),
        ensures
            self.wf(after),
    {
        assert forall|j: int| 0 <= j < self.loops@.len() implies (#[trigger] self.loops@[j]).ok(
            after,
            self.limit(after, j),
        ) by {
            assert(self.loops@[j].ok(before, self.limit(before, j)));
        }
    }

    /// A stack with no loop open.
    pub fn new() -> (stack: Self)
        ensures
            stack@ == Seq::<LoopTargets>::empty(),
            stack.recorded() == 0,
            forall|emit: InstructionWriter| stack.wf(emit),
    {
        let stack = LoopStack { loops: Vec::new() };
        assert(stack@ =~= Seq::<LoopTargets>::empty());
        stack
    }

    /// Whether a loop is open.
    pub fn in_loop(&self) -> (inside: bool)
        ensures
            inside == (self@.len() > 0),
    {
        self.loops.len() > 0
    }

    /// Opens a loop at the current offset and marks its head. `targets`
    /// are the offsets the loop's `break` and `continue` jumps will be
    /// patched to.
    pub fn open_loop(&mut self, emit: &mut InstructionWriter, Ghost(targets): Ghost<LoopTargets>)
        requires
            old(emit).wf(),
            old(self).wf(*old(emit)),
        ensures
            final(emit).wf(),
            final(self).wf(*final(emit)),
            final(emit)@ == old(emit)@.op(Opcode::LoopHead),
            final(self)@ == old(self)@.push(targets),
            final(self).recorded() == 0,
            final(self).recorded_continues() == 0,
            final(self).depth() == old(emit)@.depth,
            final(self).head() == old(emit)@.offset(),
            final(self).opened_from(*old(self)),
            final(emit).pending_count() == old(emit).pending_count(),
            keeps_pending(*old(emit), *final(emit)),
    {
        let head = emit.bytecode_offset();
        let depth = emit.stack_depth();
        emit.emit_op(Opcode::LoopHead);
        let control = LoopControl {
            head,
            depth,
            breaks: Vec::new(),
            continues: Vec::new(),
            targets: Ghost(targets),
        };
        self.loops.push(control);
        proof {
            assert(self@ =~= old(self)@.push(targets));
            assert(self.loops@.drop_last() =~= old(self).loops@);
            assert forall|j: int| 0 <= j < self.loops@.len() implies (#[trigger] self.loops@[j]).ok(
                *emit,
                self.limit(*emit, j),
            ) by {
                if j < self.loops@.len() - 1 {
                    assert(self.loops@[j] == old(self).loops@[j]);
                    assert(old(self).loops@[j].ok(*old(emit), old(self).limit(*old(emit), j)));
                }
            }
        }
    }

    /// `self` and `other` have the same loops around their innermost loop,
    /// and their innermost loops are one loop.
    pub closed spec fn same_enclosing(&self, other: LoopStack) -> bool {
        &&& self.loops@.len() == other.loops@.len()
        &&& forall|j: int|
            0 <= j < self.loops@.len() - 1 ==> (#[trigger] self.loops@[j]) == other.loops@[j]
    }

    /// Having the same enclosing loops composes, also with growth.
    pub proof fn lemma_same_enclosing(&self, middle: LoopStack, other: LoopStack)
        requires
            self.grown_from(middle) || self.same_enclosing(middle),
            middle.grown_from(other) || middle.same_enclosing(other),
        ensures
            self.same_enclosing(other),
    {
        assert forall|j: int| 0 <= j < self.loops@.len() - 1 implies (#[trigger] self.loops@[j])
            == other.loops@[j] by {
            assert(middle.loops@[j] == other.loops@[j]);
        }
    }

    /// `self` is `before` with one more loop opened.
    pub closed spec fn opened_from(&self, before: LoopStack) -> bool {
        self.loops@.len() > 0 && self.loops@.drop_last() == before.loops@
    }

    /// A loop that was opened on `before` and has been closed again leaves
    /// the stack as it was.
    pub proof fn lemma_closed(&self, opened: LoopStack, grown: LoopStack, before: LoopStack)
        requires
            opened.opened_from(before),
            grown.same_enclosing(opened),
            grown.closed_to(*self),
        ensures
            self.grown_from(before),
            self@ == before@,
            self.recorded() == before.recorded(),
            self.recorded_continues() == before.recorded_continues(),
            self.depth() == before.depth(),
    {
        assert forall|j: int| 0 <= j < self.loops@.len() implies (#[trigger] self.loops@[j])
            == before.loops@[j] by {
            assert(self.loops@[j] == grown.loops@.drop_last()[j]);
            assert(grown.loops@[j] == opened.loops@[j]);
            assert(opened.loops@.drop_last()[j] == before.loops@[j]);
        }
        assert(self.loops@ =~= before.loops@);
        assert(self@ =~= before@);
    }

    /// Patches every `continue` jump recorded for the innermost loop to
    /// `target`, the loop's continue point.
    pub fn patch_continues(&mut self, emit: &mut InstructionWriter, target: usize)
        requires
            old(emit).wf(),
            old(self).wf(*old(emit)),
            old(self)@.len() > 0,
            old(self)@.last().continue_target == target,
        ensures
            final(emit).wf(),
            final(self).wf(*final(emit)),
            final(emit)@ == old(emit)@,
            final(self)@ == old(self)@,
            final(self).depth() == old(self).depth(),
            final(self).head() == old(self).head(),
            final(self).same_enclosing(*old(self)),
            final(self).recorded_continues() == 0,
            final(self).recorded() + old(self).recorded_continues() == old(self).recorded(),
            final(emit).pending_count() + old(self).recorded_continues() == old(
                emit,
            ).pending_count(),
            keeps_pending(*old(emit), *final(emit)),
    {
        let n = self.loops.len();
        assert(self@.len() == self.loops@.len());
        let mut k: usize = self.loops[n - 1].continues.len();
        while k > 0
            invariant
                emit.wf(),
                self.wf(*emit),
                self.loops@.len() == n,
                n > 0,
                self.shrunk_from(*old(self)),
                self.loops@[n - 1].breaks@ == old(self).loops@[n - 1].breaks@,
                self.loops@[n - 1].continues@.len() == k,
                k <= old(self).loops@[n - 1].continues@.len(),
                self.loops@[n - 1].targets@.continue_target == target,
                emit@ == old(emit)@,
                emit.pending_count() + (old(self).loops@[n - 1].continues@.len() - k) == old(
                    emit,
                ).pending_count(),
                keeps_pending(*old(emit), *emit),
            decreases k,
        {
            let ghost before = *self;
            let ghost emit_before = *emit;
            assert(self.loops@[n - 1].ok(*emit, self.limit(*emit, n - 1)));
            let popped = self.loops[n - 1].continues.pop();
            let offset = popped.unwrap();
            assert(offset == before.loops@[n - 1].continues@[k - 1]);
            emit.patch_jump(offset, target);
            k = k - 1;
            proof {
                assert forall|j: int| 0 <= j < self.loops@.len() implies (
                #[trigger] self.loops@[j]).ok(*emit, self.limit(*emit, j)) by {
                    assert(before.loops@[j].ok(emit_before, before.limit(emit_before, j)));
                    if j < n - 1 {
                        assert(self.loops@[j] == before.loops@[j]);
                        assert(self.loops@[j + 1].head == before.loops@[j + 1].head);
                        assert(before.loops@[n - 1].head <= offset);
                        lemma_heads_ordered(before, emit_before, j, n - 1);
                    } else {
                        assert forall|a: int| 0 <= a < self.loops@[j].continues@.len() implies (
                        #[trigger] self.loops@[j].continues@[a]) != offset by {
                            assert(self.loops@[j].continues@[a] == before.loops@[j].continues@[a]);
                        }
                    }
                }
            }
        }
    }

    /// `self` is `before` with jumps of the innermost loop taken off its lists.
    pub closed spec fn shrunk_from(&self, before: LoopStack) -> bool {
        &&& self.loops@.len() == before.loops@.len()
        &&& forall|j: int|
            0 <= j < self.loops@.len() - 1 ==> (#[trigger] self.loops@[j]) == before.loops@[j]
        &&& self.loops@.len() > 0 ==> {
            let now = self.loops@.last();
            let then = before.loops@.last();
            &&& now.head == then.head
            &&& now.depth == then.depth
            &&& now.targets@ == then.targets@
        }
    }

    /// Ends the innermost loop at the current offset: patches every
    /// `break` jump recorded for it to land here, marks the landing point
    /// and takes the loop off the stack.
    pub fn close_loop(&mut self, emit: &mut InstructionWriter)
        requires
            old(emit).wf(),
            old(self).wf(*old(emit)),
            old(self)@.len() > 0,
            old(self).recorded_continues() == 0,
            old(self)@.last().break_target == old(emit)@.offset(),
            old(emit)@.depth == old(self).depth(),
        ensures
            final(emit).wf(),
            final(self).wf(*final(emit)),
            final(emit)@ == old(emit)@.op(Opcode::JumpTarget),
            final(self)@ == old(self)@.drop_last(),
            old(self).closed_to(*final(self)),
            final(emit).pending_count() + old(self).recorded() == old(emit).pending_count(),
            keeps_pending(*old(emit), *final(emit)),
    {
        let n = self.loops.len();
        assert(self@.len() == self.loops@.len());
        let target = emit.bytecode_offset();
        let mut k: usize = self.loops[n - 1].breaks.len();
        while k > 0
            invariant
                emit.wf(),
                self.wf(*emit),
                self.loops@.len() == n,
                n > 0,
                self.shrunk_from(*old(self)),
                self.loops@[n - 1].continues@.len() == 0,
                self.loops@[n - 1].breaks@.len() == k,
                k <= old(self).loops@[n - 1].breaks@.len(),
                self.loops@[n - 1].targets@.break_target == target,
                emit@ == old(emit)@,
                emit.pending_count() + (old(self).loops@[n - 1].breaks@.len() - k) == old(
                    emit,
                ).pending_count(),
                keeps_pending(*old(emit), *emit),
            decreases k,
        {
            let ghost before = *self;
            let ghost emit_before = *emit;
            assert(self.loops@[n - 1].ok(*emit, self.limit(*emit, n - 1)));
            let popped = self.loops[n - 1].breaks.pop();
            let offset = popped.unwrap();
            assert(offset == before.loops@[n - 1].breaks@[k - 1]);
            emit.patch_jump(offset, target);
            k = k - 1;
            proof {
                assert forall|j: int| 0 <= j < self.loops@.len() implies (
                #[trigger] self.loops@[j]).ok(*emit, self.limit(*emit, j)) by {
                    assert(before.loops@[j].ok(emit_before, before.limit(emit_before, j)));
                    if j < n - 1 {
                        assert(self.loops@[j] == before.loops@[j]);
                        assert(self.loops@[j + 1].head == before.loops@[j + 1].head);
                        assert(before.loops@[n - 1].head <= offset);
                        lemma_heads_ordered(before, emit_before, j, n - 1);
                    } else {
                        assert forall|a: int| 0 <= a < self.loops@[j].breaks@.len() implies (
                        #[trigger] self.loops@[j].breaks@[a]) != offset by {
                            assert(self.loops@[j].breaks@[a] == before.loops@[j].breaks@[a]);
                        }
                    }
                }
            }
        }
        let ghost patched = *self;
        let ghost emit_patched = *emit;
        emit.emit_jump_target();
        self.loops.pop();
        proof {
            assert(self.loops@ == old(self).loops@.drop_last()) by {
                assert forall|j: int| 0 <= j < n - 1 implies self.loops@[j] == old(
                    self,
                ).loops@[j] by {
                    assert(patched.loops@[j] == old(self).loops@[j]);
                }
                assert(self.loops@ =~= old(self).loops@.drop_last());
            }
            assert(self@ =~= old(self)@.drop_last());
            assert forall|j: int| 0 <= j < self.loops@.len() implies (#[trigger] self.loops@[j]).ok(
                *emit,
                self.limit(*emit, j),
            ) by {
                assert(patched.loops@[j] == self.loops@[j]);
                assert(patched.loops@[j].ok(emit_patched, patched.limit(emit_patched, j)));
                assert(patched.loops@[n - 1].ok(emit_patched, patched.limit(emit_patched, n - 1)));
            }
        }
    }

    /// `self` with its innermost loop taken off is `after`.
    pub closed spec fn closed_to(&self, after: LoopStack) -> bool {
        self.loops@.len() > 0 && self.loops@.drop_last() == after.loops@
    }

    /// Takes the innermost loop off the stack without patching its jumps:
    /// the way out when emission of the loop has failed.
    pub fn abandon_loop(&mut self)
        requires
            old(self)@.len() > 0,
        ensures
            final(self)@ == old(self)@.drop_last(),
            forall|before: Seq<LoopTargets>, targets: LoopTargets|
                old(self)@ == before.push(targets) ==> final(self)@ == before,
    {
        self.loops.pop();
        assert(self@ =~= old(self)@.drop_last());
        assert forall|before: Seq<LoopTargets>, targets: LoopTargets|
            old(self)@ == before.push(targets) implies self@ == before by {
            assert(before.push(targets).drop_last() =~= before);
        }
    }

    /// Writes a jump out of the innermost loop and records it.
    pub fn emit_break(&mut self, emit: &mut InstructionWriter, jump: JumpKind) -> (result: Result<
        (),
        EmitError,
    >)
        requires
            old(emit).wf(),
            old(self).wf(*old(emit)),
            (Instruction { opcode: jump.spec_opcode(), operand: Operand::Unpatched }).fits(
                old(emit)@.depth,
            ),
            old(self)@.len() > 0 ==> (Instruction {
                opcode: jump.spec_opcode(),
                operand: Operand::Unpatched,
            }).depth_after(old(emit)@.depth) == old(self).depth(),
        ensures
            result is Ok <==> old(self)@.len() > 0,
            result matches Err(e) ==> e == EmitError::NoEnclosingLoop && *final(self) == *old(self)
                && *final(emit) == *old(emit),
            result is Ok ==> {
                &&& final(emit).wf()
                &&& final(self).wf(*final(emit))
                &&& final(emit)@ == old(emit)@.jump(jump, old(self)@.last().break_target)
                &&& final(self).grown_from(*old(self))
                &&& final(self)@ == old(self)@
                &&& final(self).depth() == old(self).depth()
                &&& final(self).recorded() == old(self).recorded() + 1
                &&& final(self).recorded_continues() == old(self).recorded_continues()
                &&& final(emit).pending_count() == old(emit).pending_count() + 1
                &&& keeps_pending(*old(emit), *final(emit))
            },
    {
        let n = self.loops.len();
        if n == 0 {
            return Err(EmitError::NoEnclosingLoop);
        }
        let ghost target = self.loops@[n - 1].targets@.break_target;
        assert(self.loops@[n - 1].ok(*emit, self.limit(*emit, n - 1)));
        let offset = emit.reserve_jump(jump, Ghost(target), Ghost(true));
        self.loops[n - 1].breaks.push(offset);
        proof {
            assert(self@ =~= old(self)@);
            assert forall|j: int| 0 <= j < self.loops@.len() implies (#[trigger] self.loops@[j]).ok(
                *emit,
                self.limit(*emit, j),
            ) by {
                assert(old(self).loops@[j].ok(*old(emit), old(self).limit(*old(emit), j)));
                if j < n - 1 {
                    assert(self.loops@[j] == old(self).loops@[j]);
                    assert(self.loops@[j + 1].head == old(self).loops@[j + 1].head);
                }
            }
        }
        Ok(())
    }

    /// Writes a jump to the continue point of the innermost loop and records it.
    pub fn emit_continue(&mut self, emit: &mut InstructionWriter, jump: JumpKind) -> (result:
        Result<(), EmitError>)
        requires
            old(emit).wf(),
            old(self).wf(*old(emit)),
            (Instruction { opcode: jump.spec_opcode(), operand: Operand::Unpatched }).fits(
                old(emit)@.depth,
            ),
            old(self)@.len() > 0 ==> (Instruction {
                opcode: jump.spec_opcode(),
                operand: Operand::Unpatched,
            }).depth_after(old(emit)@.depth) == old(self).depth(),
        ensures
            result is Ok <==> old(self)@.len() > 0,
            result matches Err(e) ==> e == EmitError::NoEnclosingLoop && *final(self) == *old(self)
                && *final(emit) == *old(emit),
            result is Ok ==> {
                &&& final(emit).wf()
                &&& final(self).wf(*final(emit))
                &&& final(emit)@ == old(emit)@.jump(jump, old(self)@.last().continue_target)
                &&& final(self).grown_from(*old(self))
                &&& final(self)@ == old(self)@
                &&& final(self).depth() == old(self).depth()
                &&& final(self).recorded() == old(self).recorded() + 1
                &&& final(emit).pending_count() == old(emit).pending_count() + 1
                &&& keeps_pending(*old(emit), *final(emit))
            },
    {
        let n = self.loops.len();
        if n == 0 {
            return Err(EmitError::NoEnclosingLoop);
        }
        let ghost target = self.loops@[n - 1].targets@.continue_target;
        assert(self.loops@[n - 1].ok(*emit, self.limit(*emit, n - 1)));
        let offset = emit.reserve_jump(jump, Ghost(target), Ghost(true));
        self.loops[n - 1].continues.push(offset);
        proof {
            assert(self@ =~= old(self)@);
            assert forall|j: int| 0 <= j < self.loops@.len() implies (#[trigger] self.loops@[j]).ok(
                *emit,
                self.limit(*emit, j),
            ) by {
                assert(old(self).loops@[j].ok(*old(emit), old(self).limit(*old(emit), j)));
                if j < n - 1 {
                    assert(self.loops@[j] == old(self).loops@[j]);
                    assert(self.loops@[j + 1].head == old(self).loops@[j + 1].head);
                }
            }
        }
        Ok(())
    }
}

} // verus!
