//! The instruction set and the reasons for which a process halts.
use vstd::prelude::*;

verus! {

/// One opcode.  Only the four literal opcodes carry an immediate; every
/// other opcode takes its operands from the operand stack.
#[derive(Debug, Clone, Copy, PartialEq, Eq, Structural)]
pub enum Instruction {
    LiteralUnsigned(u16),
    LiteralSigned(i16),
    LiteralBool(bool),
    LiteralIndexed(u16),
    AddUnsigned,
    SubtractUnsigned,
    MultiplyUnsigned,
    DivideUnsigned,
    ModulusUnsigned,
    AddSigned,
    SubtractSigned,
    MultiplySigned,
    DivideSigned,
    ModulusSigned,
    BitAnd,
    BitOr,
    BitNot,
    BitXor,
    BitLShift,
    BitRShift,
    BitLRot,
    BitRRot,
    LogAnd,
    LogOr,
    LogNot,
    LogXor,
    EqUnsigned,
    NeqUnsigned,
    GtUnsigned,
    LtUnsigned,
    GtEqUnsigned,
    LtEqUnsigned,
    EqSigned,
    NeqSigned,
    GtSigned,
    LtSigned,
    GtEqSigned,
    LtEqSigned,
    Branch,
    BranchTrue,
    Call,
    Ret,
    PushSlot1,
    PushSlot2,
    PushSlot3,
    PushSlot4,
    PopSlot1,
    PopSlot2,
    PopSlot3,
    PopSlot4,
    Intrinsic,
}

/// Why a process stopped.  Every run ends with exactly one of these.
#[derive(Debug, Clone, Copy, PartialEq, Eq, Structural)]
pub enum HaltReason {
    /// The cycle budget is used up.
    CycleLimit,
    /// The instruction pointer is outside the code table.
    OutOfBounds,
    /// An operand or a return address was wanted from an empty stack.
    StackUnderflow,
    /// The operand stack or the call stack is full.
    StackOverflow,
    /// A scratch slot was read before anything was stored in it.
    EmptyScratch,
    /// An operand carries another tag than the opcode takes.
    TypeError,
    /// The index popped by `Intrinsic` is outside the intrinsics table.
    InvalidIntrinsic,
    /// The index of `LiteralIndexed` is outside the literals table.
    InvalidLiteral,
    /// The result does not fit its tag, the divisor is zero, or a shift
    /// is by 64 bits or more.
    ArithmeticFault,
}

} // verus!
