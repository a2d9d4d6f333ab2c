//! The stack of scopes that are open at the point the emitter has reached.
//!
//! Scope-introducing nodes are numbered in the order a pre-order walk meets
//! them. The stack hands out these numbers as the emitter enters scopes, so
//! a frame is no more than the index of its record in the scope data.

use vstd::prelude::*;
use crate::emitter::EmitError;
use crate::scope::{binding_index, first_lexical_duplicate, has_lexical_duplicate,
    lemma_first_lexical_duplicate, BindingName, ScopeDataMap};
use crate::tree::SourceAtomSetIndex;

verus! {

/// Where a name lives.
#[derive(Debug, Clone, Copy, PartialEq, Eq, Structural)]
pub enum NameLocation {
    /// Bound in the block whose frame is `depth` frames above the script's,
    /// at position `index` of that block's record.
    FrameSlot { depth: usize, index: usize },
    /// Bound by the script itself.
    Global(SourceAtomSetIndex),
    /// Bound by no open scope; looked up by name at run time.
    Dynamic(SourceAtomSetIndex),
}

/// The location of `name` seen from frame `depth` outwards: the innermost
/// frame whose record binds the name decides.
pub open spec fn resolve_from(
    frames: Seq<usize>,
    map: Seq<Seq<BindingName>>,
    name: SourceAtomSetIndex,
    depth: int,
) -> NameLocation
    decreases depth + 1,
{
    if depth < 0 || depth >= frames.len() {
        NameLocation::Dynamic(name)
    } else {
        match binding_index(map[frames[depth] as int], name, 0) {
            Some(index) => if depth == 0 {
                NameLocation::Global(name)
            } else {
                NameLocation::FrameSlot { depth: depth as usize, index: index as usize }
            },
            None => resolve_from(frames, map, name, depth - 1),
        }
    }
}

/// The location of `name` with the frames `frames` open, innermost last.
pub open spec fn resolve(
    frames: Seq<usize>,
    map: Seq<Seq<BindingName>>,
    name: SourceAtomSetIndex,
) -> NameLocation {
    resolve_from(frames, map, name, frames.len() - 1)
}

/// Frames below `depth` decide alone what a name resolves to from `depth`.
pub proof fn lemma_resolve_from_prefix(
    frames: Seq<usize>,
    longer: Seq<usize>,
    map: Seq<Seq<BindingName>>,
    name: SourceAtomSetIndex,
    depth: int,
)
    requires
        depth < frames.len() <= longer.len(),
        forall|i: int| 0 <= i < frames.len() ==> frames[i] == longer[i],
    ensures
        resolve_from(frames, map, name, depth) == resolve_from(longer, map, name, depth),
    decreases depth + 1,
{
    if depth >= 0 {
        lemma_resolve_from_prefix(frames, longer, map, name, depth - 1);
    }
}

/// What entering the next scope does to the frames and the counter, or the
/// error it ends in.
pub open spec fn spec_enter(
    view: ScopeStackView,
    map: Seq<Seq<BindingName>>,
) -> Result<ScopeStackView, EmitError> {
    if view.next_scope >= map.len() {
        Err(EmitError::UndeclaredScope)
    } else {
        match first_lexical_duplicate(map[view.next_scope as int], 0) {
            Some(j) => Err(EmitError::DuplicateLexicalBinding(map[view.next_scope as int][j].name)),
            None => Ok(
                ScopeStackView {
                    frames: view.frames.push(view.next_scope as usize),
                    next_scope: view.next_scope + 1,
                },
            ),
        }
    }
}

/// The scope stack as the rest of the emitter reasons about it.
pub struct ScopeStackView {
    /// The record index of every open scope, innermost last.
    pub frames: Seq<usize>,
    /// The index the next scope to be entered gets.
    pub next_scope: nat,
}

impl ScopeStackView {
    /// The stack after the innermost scope has been left.
    pub open spec fn exited(self) -> ScopeStackView {
        ScopeStackView { frames: self.frames.drop_last(), ..self }
    }
}

/// The scopes that are open, and the index the next scope gets.
pub struct EmitterScopeStack {
    frames: Vec<usize>,
    next_index: usize,
}

impl View for EmitterScopeStack {
    type V = ScopeStackView;

    closed spec fn view(&self) -> ScopeStackView {
        ScopeStackView { frames: self.frames@, next_scope: self.next_index as nat }
    }
}

impl EmitterScopeStack {
    /// Every open frame has a record in `map`.
    pub open spec fn wf(&self, map: Seq<Seq<BindingName>>) -> bool {
        forall|i: int| 0 <= i < self@.frames.len() ==> (#[trigger] self@.frames[i]) < map.len()
    }

    /// A stack with no scope open.
    pub fn new() -> (stack: Self)
        ensures
            stack@.frames == Seq::<usize>::empty(),
            stack@.next_scope == 0,
    {
        EmitterScopeStack { frames: Vec::new(), next_index: 0 }
    }

    /// The number of open scopes.
    pub fn current_depth(&self) -> (depth: usize)
        ensures
            depth == self@.frames.len(),
    {
        self.frames.len()
    }

    /// Opens the scope of the next scope-introducing node. Fails, and
    /// leaves the stack as it was, when the scope data has no record for
    /// the node or the record binds a lexical name twice.
    pub fn enter(&mut self, map: &ScopeDataMap) -> (result: Result<(), EmitError>)
        requires
            old(self).wf(map@),
        ensures
            final(self).wf(map@),
            match result {
                Ok(()) => spec_enter(old(self)@, map@) == Ok::<ScopeStackView, EmitError>(
                    final(self)@,
                ),
                Err(e) => spec_enter(old(self)@, map@) == Err::<ScopeStackView, EmitError>(e)
                    && final(self)@ == old(self)@,
            },
            result == Err::<(), EmitError>(EmitError::UndeclaredScope) <==> old(self)@.next_scope
                >= map@.len(),
            result matches Err(EmitError::DuplicateLexicalBinding(_)) <==> old(self)@.next_scope
                < map@.len() && has_lexical_duplicate(map@[old(self)@.next_scope as int]),
    {
        let index = self.next_index;
        match map.get(index) {
            None => Err(EmitError::UndeclaredScope),
            Some(record) => {
                proof {
                    lemma_first_lexical_duplicate(record@, 0);
                }
                match record.find_lexical_duplicate() {
                    Some(name) => Err(EmitError::DuplicateLexicalBinding(name)),
                    None => {
                        self.frames.push(index);
                        self.next_index = index + 1;
                        Ok(())
                    },
                }
            },
        }
    }

    /// Closes the innermost scope.
    pub fn exit(&mut self)
        requires
            old(self)@.frames.len() > 0,
        ensures
            final(self)@ == old(self)@.exited(),
    {
        self.frames.pop();
        assert(self.frames@ == old(self).frames@.drop_last());
    }

    /// Resolves `name` against the open scopes, innermost first.
    pub fn lookup_name(&self, map: &ScopeDataMap, name: SourceAtomSetIndex) -> (location:
        NameLocation)
        requires
            self.wf(map@),
        ensures
            location == resolve(self@.frames, map@, name),
    {
        let mut depth: usize = self.frames.len();
        while depth > 0
            invariant
                depth <= self.frames.len(),
                self.wf(map@),
                resolve(self@.frames, map@, name) == resolve_from(
                    self@.frames,
                    map@,
                    name,
                    depth - 1,
                ),
            decreases depth,
        {
            depth = depth - 1;
            let frame = self.frames[depth];
            assert(self@.frames[depth as int] < map@.len());
            match map.get(frame) {
                Some(record) => {
                    match record.lookup(name) {
                        Some(index) => {
                            if depth == 0 {
                                return NameLocation::Global(name);
                            } else {
                                return NameLocation::FrameSlot { depth, index };
                            }
                        },
                        None => {},
                    }
                },
                None => {},
            }
        }
        NameLocation::Dynamic(name)
    }
}

} // verus!
