//! The instruction buffer: the growing instruction stream, the literal
//! pools and the operand-stack depth at the point reached so far.
//!
//! A forward jump is written before its target exists. The buffer keeps two
//! readings of the stream. The raw stream is what has been written: a
//! forward jump that waits for its target holds [`Operand::Unpatched`]. The
//! view shows every jump with the target it was reserved for. Patching a
//! jump fills the raw stream in and leaves the view as it was, so the view
//! only ever grows at its end. Once no jump is pending the two agree.
//!
//! A pending jump is held either by the construct that wrote it, as a
//! token, or by the loop it leaves or continues. The buffer remembers
//! which, so that patching the jumps of one kind is known to leave the
//! jumps of the other kind pending.

use vstd::prelude::*;
use crate::opcode::{Instruction, JumpKind, Opcode, Operand};
use crate::scope::ScopeRecord;
use crate::tree::SourceAtomSetIndex;

verus! {

/// Why a compilation was abandoned.
#[derive(Debug, Clone, Copy, PartialEq, Eq)]
pub enum EmitError {
    /// The tree holds a construct the emitter has no bytecode for.
    NotImplemented(&'static str),
    /// A `break` or `continue` stands outside every loop.
    NoEnclosingLoop,
    /// A scope-introducing node has no record in the scope data.
    UndeclaredScope,
    /// A scope record binds the same `let` or `const` name twice.
    DuplicateLexicalBinding(SourceAtomSetIndex),
    /// The stream was finalized while a forward jump had no target.
    UnpatchedJump,
}

/// How a program is to be compiled.
#[derive(Debug, Clone, Copy, PartialEq, Eq)]
pub struct EmitOptions {
    /// Whether the script is compiled as strict-mode code.
    pub strict: bool,
}

/// A regular-expression literal: the atom of its pattern and its flags.
#[derive(Debug, Clone, Copy, PartialEq, Eq, Structural)]
pub struct RegExpItem {
    pub pattern: SourceAtomSetIndex,
    pub global: bool,
    pub ignore_case: bool,
    pub multi_line: bool,
    pub dot_all: bool,
    pub sticky: bool,
    pub unicode: bool,
}

/// What a finished compilation hands to the virtual machine.
#[derive(Debug, PartialEq)]
pub struct EmitResult {
    pub code: Vec<Instruction>,
    pub atoms: Vec<SourceAtomSetIndex>,
    pub numbers: Vec<u64>,
    pub regexps: Vec<RegExpItem>,
    pub top_scope: ScopeRecord,
}

/// The position of `item` in `pool`, or the position it gets when appended.
pub open spec fn pool_index<T>(pool: Seq<T>, item: T) -> int {
    if pool.contains(item) {
        choose|i: int| 0 <= i < pool.len() && pool[i] == item
    } else {
        pool.len() as int
    }
}

/// `pool` after `item` has been looked up in it: unchanged when it holds
/// the item already, one longer otherwise.
pub open spec fn pool_with<T>(pool: Seq<T>, item: T) -> Seq<T> {
    if pool.contains(item) {
        pool
    } else {
        pool.push(item)
    }
}

/// The number of forward jumps in `code` that wait for their target.
pub open spec fn count_unpatched(code: Seq<Instruction>) -> nat
    decreases code.len(),
{
    if code.len() == 0 {
        0
    } else {
        count_unpatched(code.drop_last()) + if code.last().is_unpatched() {
            1nat
        } else {
            0nat
        }
    }
}

/// Appending an instruction counts it if it waits for a target.
pub proof fn lemma_count_unpatched_push(code: Seq<Instruction>, instr: Instruction)
    ensures
        count_unpatched(code.push(instr)) == count_unpatched(code) + if instr.is_unpatched() {
            1nat
        } else {
            0nat
        },
{
    assert(code.push(instr).drop_last() == code);
}

/// No more jumps wait for a target than there are instructions.
pub proof fn lemma_count_unpatched_bound(code: Seq<Instruction>)
    ensures
        count_unpatched(code) <= code.len(),
    decreases code.len(),
{
    if code.len() > 0 {
        lemma_count_unpatched_bound(code.drop_last());
    }
}

/// Patching a jump that waits for its target leaves one fewer waiting.
pub proof fn lemma_count_unpatched_patch(code: Seq<Instruction>, offset: int, instr: Instruction)
    requires
        0 <= offset < code.len(),
        code[offset].is_unpatched(),
        !instr.is_unpatched(),
    ensures
        count_unpatched(code.update(offset, instr)) + 1 == count_unpatched(code),
    decreases code.len(),
{
    let patched = code.update(offset, instr);
    if offset == code.len() - 1 {
        assert(patched.drop_last() == code.drop_last());
    } else {
        assert(patched.drop_last() == code.drop_last().update(offset, instr));
        lemma_count_unpatched_patch(code.drop_last(), offset, instr);
    }
}

/// When the count is zero no instruction waits for a target.
pub proof fn lemma_count_unpatched_zero(code: Seq<Instruction>)
    requires
        count_unpatched(code) == 0,
    ensures
        forall|i: int| 0 <= i < code.len() ==> !(#[trigger] code[i]).is_unpatched(),
    decreases code.len(),
{
    if code.len() > 0 {
        lemma_count_unpatched_zero(code.drop_last());
        assert forall|i: int| 0 <= i < code.len() implies !(#[trigger] code[i]).is_unpatched() by {
            if i < code.len() - 1 {
                assert(code[i] == code.drop_last()[i]);
            }
        }
    }
}

/// An instruction that waits for a target makes the count positive.
pub proof fn lemma_count_unpatched_positive(code: Seq<Instruction>, offset: int)
    requires
        0 <= offset < code.len(),
        code[offset].is_unpatched(),
    ensures
        count_unpatched(code) > 0,
    decreases code.len(),
{
    if offset < code.len() - 1 {
        assert(code[offset] == code.drop_last()[offset]);
        lemma_count_unpatched_positive(code.drop_last(), offset);
    }
}

/// The buffer as the rest of the emitter reasons about it.
pub struct WriterView {
    /// The stream, every jump shown with the target it was reserved for.
    pub code: Seq<Instruction>,
    /// The operand-stack height if execution reached this point linearly.
    pub depth: nat,
    pub atoms: Seq<SourceAtomSetIndex>,
    pub numbers: Seq<u64>,
    pub regexps: Seq<RegExpItem>,
}

impl WriterView {
    /// The buffer before anything has been written.
    pub open spec fn empty() -> WriterView {
        WriterView {
            code: Seq::empty(),
            depth: 0,
            atoms: Seq::empty(),
            numbers: Seq::empty(),
            regexps: Seq::empty(),
        }
    }

    /// The offset of the next instruction.
    pub open spec fn offset(self) -> nat {
        self.code.len()
    }

    /// The buffer after `instr` has been appended.
    pub open spec fn emitted(self, instr: Instruction) -> WriterView {
        WriterView { code: self.code.push(instr), depth: instr.depth_after(self.depth), ..self }
    }

    /// The buffer after an opcode without operand has been appended.
    pub open spec fn op(self, opcode: Opcode) -> WriterView {
        self.emitted(Instruction { opcode, operand: Operand::Nothing })
    }

    /// The buffer after an opcode with an inline operand has been appended.
    pub open spec fn immediate(self, opcode: Opcode, value: usize) -> WriterView {
        self.emitted(Instruction { opcode, operand: Operand::Immediate(value) })
    }

    /// The buffer after an opcode that addresses a frame slot has been appended.
    pub open spec fn slot(self, opcode: Opcode, depth: usize, index: usize) -> WriterView {
        self.emitted(Instruction { opcode, operand: Operand::Slot { depth, index } })
    }

    /// The buffer after a jump to `target` has been appended.
    pub open spec fn jump(self, kind: JumpKind, target: int) -> WriterView {
        self.emitted(
            Instruction { opcode: kind.spec_opcode(), operand: Operand::Target(target as usize) },
        )
    }

    /// The buffer after `opcode` has been appended with the pool index of `atom`.
    pub open spec fn atom(self, opcode: Opcode, atom: SourceAtomSetIndex) -> WriterView {
        WriterView { atoms: pool_with(self.atoms, atom), ..self }.emitted(
            Instruction { opcode, operand: Operand::Atom(pool_index(self.atoms, atom) as usize) },
        )
    }

    /// The buffer after `opcode` has been appended with the pool index of the
    /// double with the bit pattern `bits`.
    pub open spec fn number(self, opcode: Opcode, bits: u64) -> WriterView {
        WriterView { numbers: pool_with(self.numbers, bits), ..self }.emitted(
            Instruction {
                opcode,
                operand: Operand::Number(pool_index(self.numbers, bits) as usize),
            },
        )
    }

    /// The buffer after `opcode` has been appended with the pool index of `item`.
    pub open spec fn regexp(self, opcode: Opcode, item: RegExpItem) -> WriterView {
        WriterView { regexps: pool_with(self.regexps, item), ..self }.emitted(
            Instruction {
                opcode,
                operand: Operand::RegExp(pool_index(self.regexps, item) as usize),
            },
        )
    }

    /// The buffer with the operand-stack depth set to `depth`.
    pub open spec fn with_depth(self, depth: nat) -> WriterView {
        WriterView { depth, ..self }
    }
}

/// Every jump that is held by a token and pending in `before` is so in
/// `after`, for the same target.
pub open spec fn keeps_pending(before: InstructionWriter, after: InstructionWriter) -> bool {
    forall|offset: int, target: int|
        before.is_pending_to(offset, target) ==> #[trigger] after.is_pending_to(offset, target)
}

/// As `keeps_pending`, but for the jump at `patched`.
pub open spec fn keeps_pending_except(
    before: InstructionWriter,
    after: InstructionWriter,
    patched: int,
) -> bool {
    forall|offset: int, target: int|
        before.is_pending_to(offset, target) && offset != patched
            ==> #[trigger] after.is_pending_to(offset, target)
}

/// Every jump that is held by a loop and pending in `before` is so in
/// `after`, for the same target.
pub open spec fn keeps_loop_pending(before: InstructionWriter, after: InstructionWriter) -> bool {
    forall|offset: int, target: int|
        before.is_loop_pending_to(offset, target) ==> #[trigger] after.is_loop_pending_to(
            offset,
            target,
        )
}

/// As `keeps_loop_pending`, but for the jump at `patched`.
pub open spec fn keeps_loop_pending_except(
    before: InstructionWriter,
    after: InstructionWriter,
    patched: int,
) -> bool {
    forall|offset: int, target: int|
        before.is_loop_pending_to(offset, target) && offset != patched
            ==> #[trigger] after.is_loop_pending_to(offset, target)
}

/// The instruction buffer.
pub struct InstructionWriter {
    code: Vec<Instruction>,
    resolved: Ghost<Seq<Instruction>>,
    held_by_loop: Ghost<Seq<bool>>,
    atoms: Vec<SourceAtomSetIndex>,
    numbers: Vec<u64>,
    regexps: Vec<RegExpItem>,
    stack_depth: usize,
    unpatched: usize,
}

fn intern_atom(pool: &mut Vec<usize>, item: usize) -> (index: usize)
    requires
        old(pool)@.no_duplicates(),
    ensures
        final(pool)@.no_duplicates(),
        final(pool)@ == pool_with(old(pool)@, item),
        index == pool_index(old(pool)@, item),
{
    let mut i: usize = 0;
    while i < pool.len()
        invariant
            i <= pool.len(),
            pool@ == old(pool)@,
            pool@.no_duplicates(),
            forall|j: int| 0 <= j < i ==> pool@[j] != item,
        decreases pool.len() - i,
    {
        if pool[i] == item {
            return i;
        }
        i = i + 1;
    }
    pool.push(item);
    i
}

fn intern_number(pool: &mut Vec<u64>, item: u64) -> (index: usize)
    requires
        old(pool)@.no_duplicates(),
    ensures
        final(pool)@.no_duplicates(),
        final(pool)@ == pool_with(old(pool)@, item),
        index == pool_index(old(pool)@, item),
{
    let mut i: usize = 0;
    while i < pool.len()
        invariant
            i <= pool.len(),
            pool@ == old(pool)@,
            pool@.no_duplicates(),
            forall|j: int| 0 <= j < i ==> pool@[j] != item,
        decreases pool.len() - i,
    {
        if pool[i] == item {
            return i;
        }
        i = i + 1;
    }
    pool.push(item);
    i
}

fn intern_regexp(pool: &mut Vec<RegExpItem>, item: RegExpItem) -> (index: usize)
    requires
        old(pool)@.no_duplicates(),
    ensures
        final(pool)@.no_duplicates(),
        final(pool)@ == pool_with(old(pool)@, item),
        index == pool_index(old(pool)@, item),
{
    let mut i: usize = 0;
    while i < pool.len()
        invariant
            i <= pool.len(),
            pool@ == old(pool)@,
            pool@.no_duplicates(),
            forall|j: int| 0 <= j < i ==> pool@[j] != item,
        decreases pool.len() - i,
    {
        if pool[i] == item {
            return i;
        }
        i = i + 1;
    }
    pool.push(item);
    i
}

impl View for InstructionWriter {
    type V = WriterView;

    closed spec fn view(&self) -> WriterView {
        WriterView {
            code: self.resolved@,
            depth: self.stack_depth as nat,
            atoms: self.atoms@,
            numbers: self.numbers@,
            regexps: self.regexps@,
        }
    }
}

impl InstructionWriter {
    /// The stream as written so far, pending jumps without their targets.
    pub closed spec fn raw(&self) -> Seq<Instruction> {
        self.code@
    }

    /// The number of forward jumps that wait for their target.
    pub closed spec fn pending_count(&self) -> nat {
        self.unpatched as nat
    }

    /// Whether the instruction at `offset` is a forward jump that waits for
    /// its target.
    pub open spec fn is_pending(&self, offset: int) -> bool {
        0 <= offset < self.raw().len() && self.raw()[offset].is_unpatched()
    }

    /// Whether the jump at `offset` was reserved on behalf of a loop.
    pub closed spec fn held_by_loop(&self, offset: int) -> bool {
        self.held_by_loop@[offset]
    }

    /// Whether the instruction at `offset` is a pending jump reserved for
    /// `target` and held by a token.
    pub open spec fn is_pending_to(&self, offset: int, target: int) -> bool {
        self.is_pending(offset) && self@.code[offset].operand == Operand::Target(target as usize)
            && !self.held_by_loop(offset)
    }

    /// Whether the instruction at `offset` is a pending jump reserved for
    /// `target` and held by a loop.
    pub open spec fn is_loop_pending_to(&self, offset: int, target: int) -> bool {
        self.is_pending(offset) && self@.code[offset].operand == Operand::Target(target as usize)
            && self.held_by_loop(offset)
    }

    /// The buffer is consistent: the raw stream and the view have one
    /// length, the depth does not exceed it, and the count of pending jumps
    /// is the number of jumps without a target in the raw stream.
    pub open spec fn wf(&self) -> bool {
        &&& self.inv()
        &&& self.raw().len() == self@.code.len()
        &&& self.raw().len() <= usize::MAX
        &&& self@.depth <= self@.code.len()
        &&& self.pending_count() == count_unpatched(self.raw())
    }

    /// What ties the raw stream to the view, and the pools being free of
    /// repetitions.
    pub closed spec fn inv(&self) -> bool {
        &&& self.code@.len() == self.resolved@.len()
        &&& self.code@.len() == self.held_by_loop@.len()
        &&& forall|i: int|
            0 <= i < self.code@.len() ==> if (#[trigger] self.code@[i]).is_unpatched() {
                self.resolved@[i].opcode == self.code@[i].opcode
                    && self.resolved@[i].operand is Target
            } else {
                self.resolved@[i] == self.code@[i]
            }
        &&& self.stack_depth <= self.code@.len()
        &&& self.unpatched == count_unpatched(self.code@)
        &&& self.atoms@.no_duplicates()
        &&& self.numbers@.no_duplicates()
        &&& self.regexps@.no_duplicates()
    }

    /// The raw stream and the view agree on every instruction that is not
    /// pending, and a pending jump differs from its view in the target
    /// only.
    pub proof fn lemma_wf(&self)
        requires
            self.wf(),
        ensures
            self.pending_count() <= self.raw().len(),
            forall|i: int|
                0 <= i < self.raw().len() && !(#[trigger] self.raw()[i]).is_unpatched()
                    ==> self@.code[i] == self.raw()[i],
            forall|i: int|
                0 <= i < self.raw().len() ==> (#[trigger] self@.code[i]).opcode
                    == self.raw()[i].opcode && !self@.code[i].is_unpatched(),
            self.pending_count() == 0 ==> self.raw() == self@.code,
    {
        lemma_count_unpatched_bound(self.code@);
        assert forall|i: int| 0 <= i < self.raw().len() implies (#[trigger] self@.code[i]).opcode
            == self.raw()[i].opcode && !self@.code[i].is_unpatched() by {
            assert(self.code@[i].is_unpatched() || self.resolved@[i] == self.code@[i]);
        }
        if self.pending_count() == 0 {
            lemma_count_unpatched_zero(self.code@);
            assert(self.raw() =~= self@.code);
        }
    }

    /// An empty buffer.
    pub fn new() -> (writer: Self)
        ensures
            writer.wf(),
            writer@ == WriterView::empty(),
            writer.raw() == Seq::<Instruction>::empty(),
            writer.pending_count() == 0,
    {
        InstructionWriter {
            code: Vec::new(),
            resolved: Ghost(Seq::empty()),
            held_by_loop: Ghost(Seq::empty()),
            atoms: Vec::new(),
            numbers: Vec::new(),
            regexps: Vec::new(),
            stack_depth: 0,
            unpatched: 0,
        }
    }

    /// The offset the next instruction will get.
    pub fn bytecode_offset(&self) -> (offset: usize)
        requires
            self.wf(),
        ensures
            offset == self@.offset(),
            offset == self.raw().len(),
    {
        self.code.len()
    }

    /// The operand-stack height at the current point.
    pub fn stack_depth(&self) -> (depth: usize)
        ensures
            depth == self@.depth,
    {
        self.stack_depth
    }

    /// Overwrites the operand-stack height, for a point that is not
    /// reached by falling through from the instruction before it.
    pub fn set_stack_depth(&mut self, depth: usize)
        requires
            old(self).wf(),
            depth <= old(self)@.offset(),
        ensures
            final(self).wf(),
            final(self)@ == old(self)@.with_depth(depth as nat),
            final(self).raw() == old(self).raw(),
            final(self).pending_count() == old(self).pending_count(),
            keeps_pending(*old(self), *final(self)),
            keeps_loop_pending(*old(self), *final(self)),
    {
        self.stack_depth = depth;
    }

    fn emit(&mut self, instr: Instruction)
        requires
            old(self).wf(),
            instr.fits(old(self)@.depth),
            !instr.is_unpatched(),
        ensures
            final(self).wf(),
            final(self)@ == old(self)@.emitted(instr),
            final(self).raw() == old(self).raw().push(instr),
            final(self).pending_count() == old(self).pending_count(),
            keeps_pending(*old(self), *final(self)),
            keeps_loop_pending(*old(self), *final(self)),
    {
        proof {
            lemma_count_unpatched_push(self.code@, instr);
        }
        self.code.push(instr);
        assert(self.code.len() <= usize::MAX);
        self.resolved = Ghost(self.resolved@.push(instr));
        self.held_by_loop = Ghost(self.held_by_loop@.push(false));
        self.stack_depth = instr.apply_stack_effect(self.stack_depth);
    }

    /// Appends an opcode that has no operand.
    pub fn emit_op(&mut self, opcode: Opcode)
        requires
            old(self).wf(),
            (Instruction { opcode, operand: Operand::Nothing }).fits(old(self)@.depth),
        ensures
            final(self).wf(),
            final(self)@ == old(self)@.op(opcode),
            final(self).raw() == old(self).raw().push(
                Instruction { opcode, operand: Operand::Nothing },
            ),
            final(self).pending_count() == old(self).pending_count(),
            keeps_pending(*old(self), *final(self)),
            keeps_loop_pending(*old(self), *final(self)),
    {
        self.emit(Instruction { opcode, operand: Operand::Nothing });
    }

    /// Appends an opcode with a count or an index written inline.
    pub fn emit_with_immediate(&mut self, opcode: Opcode, value: usize)
        requires
            old(self).wf(),
            (Instruction { opcode, operand: Operand::Immediate(value) }).fits(old(self)@.depth),
        ensures
            final(self).wf(),
            final(self)@ == old(self)@.immediate(opcode, value),
            final(self).raw() == old(self).raw().push(
                Instruction { opcode, operand: Operand::Immediate(value) },
            ),
            final(self).pending_count() == old(self).pending_count(),
            keeps_pending(*old(self), *final(self)),
            keeps_loop_pending(*old(self), *final(self)),
    {
        self.emit(Instruction { opcode, operand: Operand::Immediate(value) });
    }

    /// Appends an opcode that addresses a slot of an enclosing frame.
    pub fn emit_with_slot(&mut self, opcode: Opcode, depth: usize, index: usize)
        requires
            old(self).wf(),
            (Instruction { opcode, operand: Operand::Slot { depth, index } }).fits(
                old(self)@.depth,
            ),
        ensures
            final(self).wf(),
            final(self)@ == old(self)@.slot(opcode, depth, index),
            final(self).raw() == old(self).raw().push(
                Instruction { opcode, operand: Operand::Slot { depth, index } },
            ),
            final(self).pending_count() == old(self).pending_count(),
            keeps_pending(*old(self), *final(self)),
            keeps_loop_pending(*old(self), *final(self)),
    {
        self.emit(Instruction { opcode, operand: Operand::Slot { depth, index } });
    }

    /// Appends an opcode whose operand is the index of `atom` in the atom
    /// pool. The atom enters the pool if it is not there yet.
    pub fn emit_with_atom(&mut self, opcode: Opcode, atom: SourceAtomSetIndex)
        requires
            old(self).wf(),
            (Instruction { opcode, operand: Operand::Atom(0) }).fits(old(self)@.depth),
        ensures
            final(self).wf(),
            final(self)@ == old(self)@.atom(opcode, atom),
            final(self).raw() == old(self).raw().push(
                Instruction {
                    opcode,
                    operand: Operand::Atom(pool_index(old(self)@.atoms, atom) as usize),
                },
            ),
            final(self).pending_count() == old(self).pending_count(),
            keeps_pending(*old(self), *final(self)),
            keeps_loop_pending(*old(self), *final(self)),
    {
        let index = intern_atom(&mut self.atoms, atom);
        self.emit(Instruction { opcode, operand: Operand::Atom(index) });
    }

    /// Appends an opcode whose operand is the index of the double with the
    /// bit pattern `bits` in the number pool.
    pub fn emit_with_number(&mut self, opcode: Opcode, bits: u64)
        requires
            old(self).wf(),
            (Instruction { opcode, operand: Operand::Number(0) }).fits(old(self)@.depth),
        ensures
            final(self).wf(),
            final(self)@ == old(self)@.number(opcode, bits),
            final(self).raw() == old(self).raw().push(
                Instruction {
                    opcode,
                    operand: Operand::Number(pool_index(old(self)@.numbers, bits) as usize),
                },
            ),
            final(self).pending_count() == old(self).pending_count(),
            keeps_pending(*old(self), *final(self)),
            keeps_loop_pending(*old(self), *final(self)),
    {
        let index = intern_number(&mut self.numbers, bits);
        self.emit(Instruction { opcode, operand: Operand::Number(index) });
    }

    /// Appends an opcode whose operand is the index of `item` in the
    /// regular-expression pool.
    pub fn emit_with_regexp(&mut self, opcode: Opcode, item: RegExpItem)
        requires
            old(self).wf(),
            (Instruction { opcode, operand: Operand::RegExp(0) }).fits(old(self)@.depth),
        ensures
            final(self).wf(),
            final(self)@ == old(self)@.regexp(opcode, item),
            final(self).raw() == old(self).raw().push(
                Instruction {
                    opcode,
                    operand: Operand::RegExp(pool_index(old(self)@.regexps, item) as usize),
                },
            ),
            final(self).pending_count() == old(self).pending_count(),
            keeps_pending(*old(self), *final(self)),
            keeps_loop_pending(*old(self), *final(self)),
    {
        let index = intern_regexp(&mut self.regexps, item);
        self.emit(Instruction { opcode, operand: Operand::RegExp(index) });
    }

    /// Records the current offset as a landing point.
    pub fn emit_jump_target(&mut self)
        requires
            old(self).wf(),
        ensures
            final(self).wf(),
            final(self)@ == old(self)@.op(Opcode::JumpTarget),
            final(self).raw() == old(self).raw().push(
                Instruction { opcode: Opcode::JumpTarget, operand: Operand::Nothing },
            ),
            final(self).pending_count() == old(self).pending_count(),
            keeps_pending(*old(self), *final(self)),
            keeps_loop_pending(*old(self), *final(self)),
    {
        self.emit_op(Opcode::JumpTarget);
    }

    /// Appends a jump to an instruction that has been emitted already.
    pub fn emit_jump_backward(&mut self, kind: JumpKind, target: usize)
        requires
            old(self).wf(),
            (Instruction { opcode: kind.spec_opcode(), operand: Operand::Target(target) }).fits(
                old(self)@.depth,
            ),
            target < old(self)@.offset(),
        ensures
            final(self).wf(),
            final(self)@ == old(self)@.jump(kind, target as int),
            final(self).raw() == old(self).raw().push(
                Instruction { opcode: kind.spec_opcode(), operand: Operand::Target(target) },
            ),
            final(self).pending_count() == old(self).pending_count(),
            keeps_pending(*old(self), *final(self)),
            keeps_loop_pending(*old(self), *final(self)),
    {
        self.emit(Instruction { opcode: kind.opcode(), operand: Operand::Target(target) });
    }

    /// Appends a forward jump and returns its offset. The jump is pending:
    /// the raw stream holds no target for it until `patch_jump` supplies
    /// one. `target` is the offset the caller will patch it to; the view
    /// shows the jump with that target from now on. `for_loop` says
    /// whether a loop holds the jump.
    pub fn reserve_jump(
        &mut self,
        kind: JumpKind,
        Ghost(target): Ghost<int>,
        Ghost(for_loop): Ghost<bool>,
    ) -> (offset: usize)
        requires
            old(self).wf(),
            (Instruction { opcode: kind.spec_opcode(), operand: Operand::Unpatched }).fits(
                old(self)@.depth,
            ),
        ensures
            final(self).wf(),
            offset == old(self)@.offset(),
            final(self)@ == old(self)@.jump(kind, target),
            final(self).raw() == old(self).raw().push(
                Instruction { opcode: kind.spec_opcode(), operand: Operand::Unpatched },
            ),
            for_loop ==> final(self).is_loop_pending_to(offset as int, target),
            !for_loop ==> final(self).is_pending_to(offset as int, target),
            final(self).pending_count() == old(self).pending_count() + 1,
            keeps_pending(*old(self), *final(self)),
            keeps_loop_pending(*old(self), *final(self)),
    {
        let offset = self.code.len();
        let raw = Instruction { opcode: kind.opcode(), operand: Operand::Unpatched };
        let ghost shown = Instruction {
            opcode: kind.spec_opcode(),
            operand: Operand::Target(target as usize),
        };
        proof {
            lemma_count_unpatched_push(self.code@, raw);
            lemma_count_unpatched_bound(self.code@);
        }
        self.code.push(raw);
        assert(self.code.len() <= usize::MAX);
        self.resolved = Ghost(self.resolved@.push(shown));
        self.held_by_loop = Ghost(self.held_by_loop@.push(for_loop));
        self.stack_depth = raw.apply_stack_effect(self.stack_depth);
        self.unpatched = self.unpatched + 1;
        offset
    }

    /// Fills in the target of the pending jump at `offset`. The target must
    /// be the one the jump was reserved for, and the jump must still be
    /// pending: a jump is patched once.
    pub fn patch_jump(&mut self, offset: usize, target: usize)
        requires
            old(self).wf(),
            old(self).is_pending_to(offset as int, target as int) || old(self).is_loop_pending_to(
                offset as int,
                target as int,
            ),
        ensures
            final(self).wf(),
            final(self)@ == old(self)@,
            final(self).raw() == old(self).raw().update(
                offset as int,
                old(self)@.code[offset as int],
            ),
            !final(self).is_pending(offset as int),
            final(self).pending_count() + 1 == old(self).pending_count(),
            keeps_pending_except(*old(self), *final(self), offset as int),
            keeps_loop_pending_except(*old(self), *final(self), offset as int),
    {
        let opcode = self.code[offset].opcode;
        let instr = Instruction { opcode, operand: Operand::Target(target) };
        proof {
            lemma_count_unpatched_patch(self.code@, offset as int, instr);
            assert(self.code@[offset as int].is_unpatched());
            assert(self.resolved@[offset as int] == instr);
        }
        self.code.set(offset, instr);
        self.unpatched = self.unpatched - 1;
    }

    /// Closes the stream. A stream in which a forward jump still waits for
    /// its target is refused.
    pub fn into_emit_result(self, top_scope: ScopeRecord) -> (result: Result<EmitResult, EmitError>)
        requires
            self.wf(),
        ensures
            self.pending_count() > 0 <==> result is Err,
            (exists|i: int| self.is_pending(i)) <==> result is Err,
            result matches Err(e) ==> e == EmitError::UnpatchedJump,
            result matches Ok(artifact) ==> {
                &&& artifact.code@ == self@.code
                &&& artifact.code@ == self.raw()
                &&& artifact.atoms@ == self@.atoms
                &&& artifact.numbers@ == self@.numbers
                &&& artifact.regexps@ == self@.regexps
                &&& artifact.top_scope == top_scope
            },
    {
        proof {
            self.lemma_wf();
            if self.unpatched == 0 {
                lemma_count_unpatched_zero(self.code@);
            }
            if exists|i: int| self.is_pending(i) {
                let i = choose|i: int| self.is_pending(i);
                lemma_count_unpatched_positive(self.code@, i);
            }
        }
        if self.unpatched != 0 {
            proof {
                if !(exists|i: int| self.is_pending(i)) {
                    assert forall|i: int| 0 <= i < self.code@.len() implies !(
                    #[trigger] self.code@[i]).is_unpatched() by {
                        assert(!self.is_pending(i));
                    }
                    lemma_count_zero_when_none(self.code@);
                }
            }
            return Err(EmitError::UnpatchedJump);
        }
        Ok(
            EmitResult {
                code: self.code,
                atoms: self.atoms,
                numbers: self.numbers,
                regexps: self.regexps,
                top_scope,
            },
        )
    }
}

/// When no instruction waits for a target the count is zero.
pub proof fn lemma_count_zero_when_none(code: Seq<Instruction>)
    requires
        forall|i: int| 0 <= i < code.len() ==> !(#[trigger] code[i]).is_unpatched(),
    ensures
        count_unpatched(code) == 0,
    decreases code.len(),
{
    if code.len() > 0 {
        assert forall|i: int| 0 <= i < code.drop_last().len() implies !(
        #[trigger] code.drop_last()[i]).is_unpatched() by {
            assert(code.drop_last()[i] == code[i]);
        }
        lemma_count_zero_when_none(code.drop_last());
    }
}

} // verus!
