//! The instructions that read, write and call through a name.

use vstd::prelude::*;
use crate::ast_emitter::AstEmitter;
use crate::emitter_scope::NameLocation;
use crate::opcode::Opcode;
use crate::tree::SourceAtomSetIndex;

verus! {

/// Reads a name.
pub struct GetNameEmitter {
    pub name: SourceAtomSetIndex,
}

impl GetNameEmitter {
    /// Resolves the name and pushes its value.
    pub fn emit(self, emitter: &mut AstEmitter)
        requires
            old(emitter).wf(),
        ensures
            final(emitter).expression_frame(old(emitter), Ok(())),
            final(emitter)@ == old(emitter)@.get_name(
                old(emitter)@.locate(old(emitter).context(), self.name),
            ),
            final(emitter)@.offset() == old(emitter)@.offset() + 1,
            final(emitter)@.writer.depth == old(emitter)@.writer.depth + 1,
    {
        let location = emitter.lookup_name(self.name);
        match location {
            NameLocation::FrameSlot { depth, index } => {
                emitter.emit.emit_with_slot(Opcode::GetLocal, depth, index);
            },
            NameLocation::Global(atom) => {
                emitter.emit.emit_with_atom(Opcode::GetGName, atom);
            },
            NameLocation::Dynamic(atom) => {
                emitter.emit.emit_with_atom(Opcode::GetName, atom);
            },
        }
    }
}

/// A name that is about to be called, assigned or declared.
pub struct NameReferenceEmitter {
    pub name: SourceAtomSetIndex,
}

impl NameReferenceEmitter {
    /// Pushes the function the name holds and `undefined` as the `this`
    /// of the call: a call through a bare name binds no object.
    pub fn emit_for_call(self, emitter: &mut AstEmitter)
        requires
            old(emitter).wf(),
        ensures
            final(emitter).expression_frame(old(emitter), Ok(())),
            final(emitter)@ == old(emitter)@.get_name(
                old(emitter)@.locate(old(emitter).context(), self.name),
            ).op(Opcode::Undefined),
            final(emitter)@.offset() == old(emitter)@.offset() + 2,
            final(emitter)@.writer.depth == old(emitter)@.writer.depth + 2,
    {
        GetNameEmitter { name: self.name }.emit(emitter);
        emitter.emit.emit_op(Opcode::Undefined);
    }

    /// Writes the value on top of the stack to the name; the value stays.
    pub fn emit_for_assignment(self, emitter: &mut AstEmitter)
        requires
            old(emitter).wf(),
            old(emitter)@.writer.depth >= 1,
        ensures
            final(emitter).expression_frame(old(emitter), Ok(())),
            final(emitter)@ == old(emitter)@.set_name(
                old(emitter)@.locate(old(emitter).context(), self.name),
            ),
            final(emitter)@.offset() == old(emitter)@.offset() + 1,
            final(emitter)@.writer.depth == old(emitter)@.writer.depth,
    {
        let location = emitter.lookup_name(self.name);
        match location {
            NameLocation::FrameSlot { depth, index } => {
                emitter.emit.emit_with_slot(Opcode::SetLocal, depth, index);
            },
            NameLocation::Global(atom) => {
                emitter.emit.emit_with_atom(Opcode::SetGName, atom);
            },
            NameLocation::Dynamic(atom) => {
                emitter.emit.emit_with_atom(Opcode::SetName, atom);
            },
        }
    }

    /// Writes the value on top of the stack to the name for the first
    /// time; the value stays.
    pub fn emit_for_declaration(self, emitter: &mut AstEmitter)
        requires
            old(emitter).wf(),
            old(emitter)@.writer.depth >= 1,
        ensures
            final(emitter).expression_frame(old(emitter), Ok(())),
            final(emitter)@ == old(emitter)@.init_name(
                old(emitter)@.locate(old(emitter).context(), self.name),
            ),
            final(emitter)@.offset() == old(emitter)@.offset() + 1,
            final(emitter)@.writer.depth == old(emitter)@.writer.depth,
    {
        let location = emitter.lookup_name(self.name);
        match location {
            NameLocation::FrameSlot { depth, index } => {
                emitter.emit.emit_with_slot(Opcode::InitLexical, depth, index);
            },
            NameLocation::Global(atom) => {
                emitter.emit.emit_with_atom(Opcode::InitGLexical, atom);
            },
            NameLocation::Dynamic(atom) => {
                emitter.emit.emit_with_atom(Opcode::SetName, atom);
            },
        }
    }
}

} // verus!
