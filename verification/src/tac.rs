use crate::ast::{is_unsigned_type, size_of_type, type_size, Const, Name};
use crate::lexer::{BinaryOperator, Type, UnaryOperator};
use vstd::prelude::*;

verus! {

/// The machine registers the generated code uses.
#[derive(Debug, Clone, Copy, PartialEq, Eq, Structural)]
pub enum Reg {
    BP,
    SP,
    AX,
    DX,
    DI,
    SI,
    CX,
    R8,
    R9,
    R10,
    R11,
    /// The low byte of `CX`, which holds the count of a shift.
    CL,
}

/// A place that holds a value: a stack slot at a negative offset from the
/// frame pointer, a machine register, or a named object in the data
/// section. Each carries the type of the value it holds.
#[derive(Debug, Clone, Copy, PartialEq, Eq, Structural)]
pub enum Pseudoregister {
    Pseudoregister(u64, Type),
    Register(Reg, Type),
    Data(Name, Type),
}

/// An operand: a place, a constant, or a memory cell at a positive offset
/// from a register (stack arguments).
#[derive(Debug, Clone, Copy, PartialEq, Eq, Structural)]
pub enum Operand {
    Register(Pseudoregister),
    Immediate(Const),
    MemoryReference(u64, Reg, Type),
}

#[derive(Debug, Clone, Copy, PartialEq, Eq, Structural)]
pub enum LabelKind {
    False,
    True,
    Else,
    End,
    LoopStart,
    LoopEnd,
    LoopIncrement,
}

/// A jump target: numbered per function, or by the loop it belongs to.
#[derive(Debug, Clone, Copy, PartialEq, Eq, Structural)]
pub struct Label {
    pub function: usize,
    pub number: u64,
    pub kind: LabelKind,
}

/// An instruction of the three-address code.
#[derive(Debug, Clone, Copy, PartialEq, Eq, Structural)]
pub enum TACInstruction {
    FunctionInstruction { name: Name, global: bool },
    StaticVariable { name: Name, global: bool, init: Const },
    UnaryOpInstruction { dest: Pseudoregister, op: UnaryOperator, operand: Operand },
    BinaryOpInstruction { dest: Pseudoregister, op: BinaryOperator, left: Operand, right: Operand },
    JumpIfZero { label: Label, operand: Operand },
    JumpIfNotZero { label: Label, operand: Operand },
    Jump { label: Label },
    Label { label: Label },
    StoreValueInstruction { dest: Pseudoregister, src: Operand },
    ReturnInstruction { val: Operand },
    AllocateStackInstruction,
    FunctionCall(Name),
    PushArgument(Operand),
    AdjustStack(u64),
    SignExtend { dest: Pseudoregister, src: Operand },
    Truncate { dest: Pseudoregister, src: Operand },
    ZeroExtend { dest: Pseudoregister, src: Operand },
}

impl Pseudoregister {
    pub fn new(offset: u64, t: Type) -> (p: Pseudoregister)
        ensures
            p == Pseudoregister::Pseudoregister(offset, t),
    {
        Pseudoregister::Pseudoregister(offset, t)
    }

    pub open spec fn spec_type(&self) -> Type {
        match self {
            Pseudoregister::Pseudoregister(_, t) => *t,
            Pseudoregister::Register(_, t) => *t,
            Pseudoregister::Data(_, t) => *t,
        }
    }

    pub open spec fn spec_size(&self) -> i32 {
        type_size(self.spec_type())
    }

    /// Size in bytes of the value held.
    pub fn size(&self) -> (s: i32)
        ensures
            s == self.spec_size(),
    {
        match self {
            Pseudoregister::Pseudoregister(_, t) => size_of_type(*t),
            Pseudoregister::Register(_, t) => size_of_type(*t),
            Pseudoregister::Data(_, t) => size_of_type(*t),
        }
    }

    pub fn is_unsigned(&self) -> (b: bool)
        ensures
            b == is_unsigned_type(self.spec_type()),
    {
        let t = match self {
            Pseudoregister::Pseudoregister(_, t) => *t,
            Pseudoregister::Register(_, t) => *t,
            Pseudoregister::Data(_, t) => *t,
        };
        t == Type::UInt || t == Type::ULong
    }
}

impl Operand {
    pub open spec fn spec_size(&self) -> i32 {
        match self {
            Operand::Register(r) => r.spec_size(),
            Operand::Immediate(c) => c.spec_size(),
            Operand::MemoryReference(_, _, t) => type_size(*t),
        }
    }

    pub fn size(&self) -> (s: i32)
        ensures
            s == self.spec_size(),
    {
        match self {
            Operand::Register(r) => r.size(),
            Operand::Immediate(c) => c.size(),
            Operand::MemoryReference(_, _, t) => size_of_type(*t),
        }
    }

    pub fn is_immediate(&self) -> (b: bool)
        ensures
            b == (*self is Immediate),
    {
        match self {
            Operand::Immediate(_) => true,
            _ => false,
        }
    }

    pub open spec fn spec_is_unsigned(&self) -> bool {
        match self {
            Operand::Immediate(c) => c is ConstUInt || c is ConstULong,
            Operand::Register(r) => is_unsigned_type(r.spec_type()),
            Operand::MemoryReference(_, _, t) => is_unsigned_type(*t),
        }
    }

    pub fn is_unsigned(&self) -> (b: bool)
        ensures
            b == self.spec_is_unsigned(),
    {
        match self {
            Operand::Immediate(c) => match c {
                Const::ConstUInt(_) | Const::ConstULong(_) => true,
                _ => false,
            },
            Operand::Register(r) => r.is_unsigned(),
            Operand::MemoryReference(_, _, t) => *t == Type::UInt || *t == Type::ULong,
        }
    }
}

} // verus!
