//! The instruction set of the target stack machine.

use vstd::prelude::*;

verus! {

/// The operations of the stack machine.
#[derive(Debug, Clone, Copy, PartialEq, Eq, Structural)]
pub enum Opcode {
    // Literals.
    Undefined,
    Null,
    True,
    False,
    Double,
    String,
    RegExp,
    Int32,
    Hole,
    // Unary operators.
    Pos,
    Neg,
    Not,
    BitNot,
    Void,
    // Binary operators.
    Eq,
    Ne,
    StrictEq,
    StrictNe,
    Lt,
    Le,
    Gt,
    Ge,
    In,
    Instanceof,
    Lsh,
    Rsh,
    Ursh,
    Add,
    Sub,
    Mul,
    Div,
    Mod,
    Pow,
    BitOr,
    BitXor,
    BitAnd,
    // Stack shuffling.
    Pop,
    // Control flow.
    Goto,
    IfEq,
    IfNe,
    Or,
    And,
    Coalesce,
    JumpTarget,
    LoopHead,
    Throw,
    // Names.
    GetLocal,
    SetLocal,
    InitLexical,
    GetGName,
    SetGName,
    InitGLexical,
    GetName,
    SetName,
    // Properties and elements.
    GetProp,
    GetElem,
    GetPropSuper,
    GetElemSuper,
    CallProp,
    CallElem,
    // Calls.
    Call,
    New,
    // Object and array literals.
    NewInit,
    InitProp,
    InitElem,
    NewArray,
    InitElemArray,
    InitElemInc,
    Spread,
}

/// What follows an opcode in the instruction stream.
#[derive(Debug, Clone, Copy, PartialEq, Eq, Structural)]
pub enum Operand {
    Nothing,
    /// A count or an index written inline.
    Immediate(usize),
    /// An index into the atom pool.
    Atom(usize),
    /// An index into the number pool.
    Number(usize),
    /// An index into the regular-expression pool.
    RegExp(usize),
    /// A slot of an enclosing frame.
    Slot { depth: usize, index: usize },
    /// The offset of the instruction a jump lands on.
    Target(usize),
    /// The target field of a forward jump that has not been patched yet.
    Unpatched,
}

/// One instruction of the stream: an opcode and what follows it.
#[derive(Debug, Clone, Copy, PartialEq, Eq, Structural)]
pub struct Instruction {
    pub opcode: Opcode,
    pub operand: Operand,
}

/// The jumps a forward or backward jump emitter can write.
#[derive(Debug, Clone, Copy, PartialEq, Eq, Structural)]
pub enum JumpKind {
    /// Taken when the value on top is neither `null` nor `undefined`; the value stays.
    Coalesce,
    /// Taken when the value on top is falsy; the value stays.
    LogicalAnd,
    /// Taken when the value on top is truthy; the value stays.
    LogicalOr,
    /// Pops the value on top and is taken when it is falsy.
    IfEq,
    /// Pops the value on top and is taken when it is truthy.
    IfNe,
    /// Always taken.
    Goto,
}

impl JumpKind {
    /// The opcode that performs the jump.
    pub open spec fn spec_opcode(self) -> Opcode {
        match self {
            JumpKind::Coalesce => Opcode::Coalesce,
            JumpKind::LogicalAnd => Opcode::And,
            JumpKind::LogicalOr => Opcode::Or,
            JumpKind::IfEq => Opcode::IfEq,
            JumpKind::IfNe => Opcode::IfNe,
            JumpKind::Goto => Opcode::Goto,
        }
    }

    /// The opcode that performs the jump.
    #[verifier::when_used_as_spec(spec_opcode)]
    pub fn opcode(self) -> (op: Opcode)
        ensures
            op == self.spec_opcode(),
    {
        match self {
            JumpKind::Coalesce => Opcode::Coalesce,
            JumpKind::LogicalAnd => Opcode::And,
            JumpKind::LogicalOr => Opcode::Or,
            JumpKind::IfEq => Opcode::IfEq,
            JumpKind::IfNe => Opcode::IfNe,
            JumpKind::Goto => Opcode::Goto,
        }
    }
}

impl Opcode {
    /// Whether the opcode is one of the jumps.
    pub open spec fn is_jump(self) -> bool {
        self == Opcode::Goto || self == Opcode::IfEq || self == Opcode::IfNe || self == Opcode::Or
            || self == Opcode::And || self == Opcode::Coalesce
    }
}

impl Instruction {
    /// The number of values the instruction takes off the operand stack.
    pub open spec fn uses(self) -> nat {
        match self.opcode {
            Opcode::Undefined | Opcode::Null | Opcode::True | Opcode::False | Opcode::Double
            | Opcode::String | Opcode::RegExp | Opcode::Int32 | Opcode::Hole => 0,
            Opcode::Pos | Opcode::Neg | Opcode::Not | Opcode::BitNot | Opcode::Void => 1,
            Opcode::Eq | Opcode::Ne | Opcode::StrictEq | Opcode::StrictNe | Opcode::Lt
            | Opcode::Le | Opcode::Gt | Opcode::Ge | Opcode::In | Opcode::Instanceof
            | Opcode::Lsh | Opcode::Rsh | Opcode::Ursh | Opcode::Add | Opcode::Sub
            | Opcode::Mul | Opcode::Div | Opcode::Mod | Opcode::Pow | Opcode::BitOr
            | Opcode::BitXor | Opcode::BitAnd => 2,
            Opcode::Pop => 1,
            Opcode::Goto | Opcode::JumpTarget | Opcode::LoopHead => 0,
            Opcode::IfEq | Opcode::IfNe | Opcode::Or | Opcode::And | Opcode::Coalesce => 1,
            Opcode::Throw => 1,
            Opcode::GetLocal | Opcode::GetGName | Opcode::GetName => 0,
            Opcode::SetLocal | Opcode::InitLexical | Opcode::SetGName | Opcode::InitGLexical
            | Opcode::SetName => 1,
            Opcode::GetProp | Opcode::GetPropSuper | Opcode::CallProp => 1,
            Opcode::GetElem | Opcode::GetElemSuper | Opcode::CallElem => 2,
            Opcode::Call => match self.operand {
                Operand::Immediate(argc) => (argc + 2) as nat,
                _ => 2,
            },
            Opcode::New => match self.operand {
                Operand::Immediate(argc) => (argc + 1) as nat,
                _ => 1,
            },
            Opcode::NewInit | Opcode::NewArray => 0,
            Opcode::InitProp | Opcode::InitElemArray => 2,
            Opcode::InitElem | Opcode::InitElemInc | Opcode::Spread => 3,
        }
    }

    /// The number of values the instruction leaves on the operand stack.
    pub open spec fn defs(self) -> nat {
        match self.opcode {
            Opcode::Undefined | Opcode::Null | Opcode::True | Opcode::False | Opcode::Double
            | Opcode::String | Opcode::RegExp | Opcode::Int32 | Opcode::Hole => 1,
            Opcode::Pos | Opcode::Neg | Opcode::Not | Opcode::BitNot | Opcode::Void => 1,
            Opcode::Eq | Opcode::Ne | Opcode::StrictEq | Opcode::StrictNe | Opcode::Lt
            | Opcode::Le | Opcode::Gt | Opcode::Ge | Opcode::In | Opcode::Instanceof
            | Opcode::Lsh | Opcode::Rsh | Opcode::Ursh | Opcode::Add | Opcode::Sub
            | Opcode::Mul | Opcode::Div | Opcode::Mod | Opcode::Pow | Opcode::BitOr
            | Opcode::BitXor | Opcode::BitAnd => 1,
            Opcode::Pop => 0,
            Opcode::Goto | Opcode::JumpTarget | Opcode::LoopHead => 0,
            Opcode::IfEq | Opcode::IfNe => 0,
            Opcode::Or | Opcode::And | Opcode::Coalesce => 1,
            Opcode::Throw => 0,
            Opcode::GetLocal | Opcode::GetGName | Opcode::GetName => 1,
            Opcode::SetLocal | Opcode::InitLexical | Opcode::SetGName | Opcode::InitGLexical
            | Opcode::SetName => 1,
            Opcode::GetProp | Opcode::GetPropSuper => 1,
            Opcode::CallProp => 2,
            Opcode::GetElem | Opcode::GetElemSuper => 1,
            Opcode::CallElem => 2,
            Opcode::Call | Opcode::New => 1,
            Opcode::NewInit | Opcode::NewArray => 1,
            Opcode::InitProp | Opcode::InitElemArray | Opcode::InitElem => 1,
            Opcode::InitElemInc | Opcode::Spread => 2,
        }
    }

    /// Whether an operand stack of height `depth` holds what the instruction takes.
    pub open spec fn fits(self, depth: nat) -> bool {
        self.uses() <= depth
    }

    /// The height of the operand stack after the instruction, given its height before.
    pub open spec fn depth_after(self, depth: nat) -> nat {
        (depth - self.uses() + self.defs()) as nat
    }

    /// Whether the instruction is a forward jump still waiting for its target.
    pub open spec fn is_unpatched(self) -> bool {
        self.operand is Unpatched
    }

    /// Computes the stack height after the instruction.
    pub fn apply_stack_effect(&self, depth: usize) -> (after: usize)
        requires
            self.fits(depth as nat),
            depth < usize::MAX,
        ensures
            after == self.depth_after(depth as nat),
            after <= depth + 1,
    {
        match self.opcode {
            Opcode::Undefined | Opcode::Null | Opcode::True | Opcode::False | Opcode::Double
            | Opcode::String | Opcode::RegExp | Opcode::Int32 | Opcode::Hole => depth + 1,
            Opcode::Pos | Opcode::Neg | Opcode::Not | Opcode::BitNot | Opcode::Void => depth,
            Opcode::Eq | Opcode::Ne | Opcode::StrictEq | Opcode::StrictNe | Opcode::Lt
            | Opcode::Le | Opcode::Gt | Opcode::Ge | Opcode::In | Opcode::Instanceof
            | Opcode::Lsh | Opcode::Rsh | Opcode::Ursh | Opcode::Add | Opcode::Sub
            | Opcode::Mul | Opcode::Div | Opcode::Mod | Opcode::Pow | Opcode::BitOr
            | Opcode::BitXor | Opcode::BitAnd => depth - 1,
            Opcode::Pop => depth - 1,
            Opcode::Goto | Opcode::JumpTarget | Opcode::LoopHead => depth,
            Opcode::IfEq | Opcode::IfNe => depth - 1,
            Opcode::Or | Opcode::And | Opcode::Coalesce => depth,
            Opcode::Throw => depth - 1,
            Opcode::GetLocal | Opcode::GetGName | Opcode::GetName => depth + 1,
            Opcode::SetLocal | Opcode::InitLexical | Opcode::SetGName | Opcode::InitGLexical
            | Opcode::SetName => depth,
            Opcode::GetProp | Opcode::GetPropSuper => depth,
            Opcode::CallProp => depth + 1,
            Opcode::GetElem | Opcode::GetElemSuper => depth - 1,
            Opcode::CallElem => depth,
            Opcode::Call => match self.operand {
                Operand::Immediate(argc) => depth - argc - 1,
                _ => depth - 1,
            },
            Opcode::New => match self.operand {
                Operand::Immediate(argc) => depth - argc,
                _ => depth,
            },
            Opcode::NewInit | Opcode::NewArray => depth + 1,
            Opcode::InitProp | Opcode::InitElemArray => depth - 1,
            Opcode::InitElem => depth - 2,
            Opcode::InitElemInc | Opcode::Spread => depth - 1,
        }
    }
}

} // verus!
